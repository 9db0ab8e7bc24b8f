//! The store: where the session of a boost is kept, and how it is written, read
//! and removed. The host performs the file operations.

use std::path::PathBuf;
use vstd::prelude::*;

use crate::error::BoosterError;
use crate::session::SessionModel;

verus! {

/// `std::path::PathBuf`, whose contents only the host looks at.
#[verifier::external_type_specification]
#[verifier::external_body]
pub struct ExPathBuf(PathBuf);

/// A JSON file that holds the session of the boost that is applied.
pub struct SessionStore {
    path: PathBuf,
}

/// How a file operation failed.
#[derive(Debug)]
pub enum FileError {
    /// There is no such file.
    NotFound,
    /// Otherwise, with the system's message.
    Failed(String),
}

/// One step of saving a session.
#[derive(Debug, Clone, Copy, PartialEq, Eq, Structural)]
pub enum SaveStep {
    /// Create the directory that the file is in.
    CreateParent,
    /// Write the session as JSON to a temporary file beside the file.
    WriteTemp,
    /// Rename the temporary file to the file.
    Rename,
}

/// What follows a step of saving.
#[derive(Debug)]
pub enum SaveProgress {
    Next(SaveStep),
    Done(Result<(), BoosterError>),
}

/// What follows a step of saving, by what the step came to: the steps are taken
/// in order, and the first failure ends the save.
pub open spec fn save_follows(step: SaveStep, r: Result<(), BoosterError>) -> SaveProgress {
    match r {
        Err(e) => SaveProgress::Done(Err(e)),
        Ok(_) => match step {
            SaveStep::CreateParent => SaveProgress::Next(SaveStep::WriteTemp),
            SaveStep::WriteTemp => SaveProgress::Next(SaveStep::Rename),
            SaveStep::Rename => SaveProgress::Done(Ok(())),
        },
    }
}

/// The first step of saving to a path with or without a parent.
pub open spec fn first_step(has_parent: bool) -> SaveStep {
    if has_parent {
        SaveStep::CreateParent
    } else {
        SaveStep::WriteTemp
    }
}

/// What loading comes to, by what reading the file came to.
pub open spec fn loaded(read: Result<Vec<u8>, FileError>) -> Result<
    Option<Vec<u8>>,
    BoosterError,
> {
    match read {
        Ok(bytes) => Ok(Some(bytes)),
        Err(FileError::NotFound) => Ok(None),
        Err(FileError::Failed(m)) => Err(BoosterError::Io(m)),
    }
}

/// What clearing comes to, by what removing the file came to.
pub open spec fn cleared(removed: Result<(), FileError>) -> Result<(), BoosterError> {
    match removed {
        Ok(_) => Ok(()),
        Err(FileError::NotFound) => Ok(()),
        Err(FileError::Failed(m)) => Err(BoosterError::Io(m)),
    }
}

impl SessionStore {
    /// Where the file is.
    pub closed spec fn location(&self) -> PathBuf {
        self.path
    }

    /// A store in the file `path`.
    pub fn new(path: PathBuf) -> (store: Self)
        ensures
            store.location() == path,
    {
        SessionStore { path }
    }

    /// Where the file is.
    pub fn path(&self) -> (path: &PathBuf)
        ensures
            *path == self.location(),
    {
        &self.path
    }

    /// Starts to save a session: the first step. A path without a parent needs
    /// no directory.
    pub fn save(&self, has_parent: bool) -> (step: SaveStep)
        ensures
            step == first_step(has_parent),
    {
        if has_parent {
            SaveStep::CreateParent
        } else {
            SaveStep::WriteTemp
        }
    }

    /// Takes what a step of saving came to and says what follows.
    pub fn save_step(&self, step: SaveStep, r: Result<(), BoosterError>) -> (progress: SaveProgress)
        ensures
            progress == save_follows(step, r),
    {
        match r {
            Err(e) => SaveProgress::Done(Err(e)),
            Ok(_) => match step {
                SaveStep::CreateParent => SaveProgress::Next(SaveStep::WriteTemp),
                SaveStep::WriteTemp => SaveProgress::Next(SaveStep::Rename),
                SaveStep::Rename => SaveProgress::Done(Ok(())),
            },
        }
    }

    /// What loading comes to, by what reading the file came to: the bytes of the
    /// session, or nothing if there is no file.
    pub fn load(&self, read: Result<Vec<u8>, FileError>) -> (session: Result<
        Option<Vec<u8>>,
        BoosterError,
    >)
        ensures
            session == loaded(read),
    {
        match read {
            Ok(bytes) => Ok(Some(bytes)),
            Err(FileError::NotFound) => Ok(None),
            Err(FileError::Failed(m)) => Err(BoosterError::Io(m)),
        }
    }

    /// What clearing comes to, by what removing the file came to. A file that is
    /// not there needs no removing.
    pub fn clear(&self, removed: Result<(), FileError>) -> (done: Result<(), BoosterError>)
        ensures
            done == cleared(removed),
    {
        match removed {
            Ok(_) => Ok(()),
            Err(FileError::NotFound) => Ok(()),
            Err(FileError::Failed(m)) => Err(BoosterError::Io(m)),
        }
    }
}

/// The store's file and the temporary file beside it, as far as they exist, and
/// whether their directory exists.
pub struct Files {
    pub parent: bool,
    pub file: Option<Seq<u8>>,
    pub temp: Option<Seq<u8>>,
}

/// Whether a step of saving `json` may turn `files` into `after` and end so. A
/// write that fails may leave anything in the temporary file; a rename either
/// happens or does not.
pub open spec fn step_does(
    files: Files,
    step: SaveStep,
    json: Seq<u8>,
    r: Result<(), BoosterError>,
    after: Files,
) -> bool {
    match step {
        SaveStep::CreateParent => {
            &&& after == (Files { parent: after.parent, ..files })
            &&& r is Ok ==> after.parent
        },
        SaveStep::WriteTemp => {
            &&& after == (Files { temp: after.temp, ..files })
            &&& r is Ok ==> after.temp == Some(json)
        },
        SaveStep::Rename => if r is Ok {
            after == (Files { file: files.temp, temp: None, ..files })
        } else {
            after == files
        },
    }
}

/// Whether reading the file may come to `read`. It may fail.
pub open spec fn read_does(files: Files, read: Result<Vec<u8>, FileError>) -> bool {
    match read {
        Ok(bytes) => files.file == Some(bytes@),
        Err(FileError::NotFound) => files.file is None,
        Err(FileError::Failed(_)) => true,
    }
}

/// Whether removing the file may turn `files` into `after` and end so.
pub open spec fn remove_does(files: Files, removed: Result<(), FileError>, after: Files) -> bool {
    match removed {
        Ok(_) => after == (Files { file: None, ..files }),
        Err(FileError::NotFound) => files.file is None && after == files,
        Err(FileError::Failed(_)) => after == files,
    }
}

/// One step of a save: what it came to, and the files after it.
pub struct SaveTurn {
    pub result: Result<(), BoosterError>,
    pub files: Files,
}

/// Where a save is: the files, and what follows.
pub struct SavePlace {
    pub files: Files,
    pub progress: SaveProgress,
}

/// The start of a save.
pub open spec fn save_start(files: Files, has_parent: bool) -> SavePlace {
    SavePlace { files, progress: SaveProgress::Next(first_step(has_parent)) }
}

/// Where the steps of a save of `json` lead from `p`; `None` if they are not what
/// the file operations may do, or come when the save is over.
pub open spec fn save_run(json: Seq<u8>, p: SavePlace, turns: Seq<SaveTurn>) -> Option<SavePlace>
    decreases turns.len(),
{
    if turns.len() == 0 {
        Some(p)
    } else {
        match p.progress {
            SaveProgress::Next(step) => if step_does(
                p.files,
                step,
                json,
                turns[0].result,
                turns[0].files,
            ) {
                save_run(
                    json,
                    SavePlace {
                        files: turns[0].files,
                        progress: save_follows(step, turns[0].result),
                    },
                    turns.drop_first(),
                )
            } else {
                None
            },
            SaveProgress::Done(_) => None,
        }
    }
}

/// Whether a save of `json` that found `before` in the store is in good order:
/// until it has succeeded the file is as it was, and then it holds `json`.
spec fn atomic(before: Option<Seq<u8>>, json: Seq<u8>, has_parent: bool, p: SavePlace) -> bool {
    match p.progress {
        SaveProgress::Next(step) => {
            &&& p.files.file == before
            &&& step == SaveStep::Rename ==> p.files.temp == Some(json)
            &&& has_parent && step != SaveStep::CreateParent ==> p.files.parent
        },
        SaveProgress::Done(Ok(_)) => p.files.file == Some(json),
        SaveProgress::Done(Err(_)) => p.files.file == before,
    }
}

proof fn lemma_save_run(
    before: Option<Seq<u8>>,
    json: Seq<u8>,
    has_parent: bool,
    p: SavePlace,
    turns: Seq<SaveTurn>,
)
    requires
        atomic(before, json, has_parent, p),
        save_run(json, p, turns) is Some,
    ensures
        atomic(before, json, has_parent, save_run(json, p, turns)->0),
    decreases turns.len(),
{
    if turns.len() > 0 {
        let step = p.progress->Next_0;
        let q = SavePlace {
            files: turns[0].files,
            progress: save_follows(step, turns[0].result),
        };
        assert(atomic(before, json, has_parent, q));
        lemma_save_run(before, json, has_parent, q, turns.drop_first());
    }
}

/// Saving is atomic. Take any run of a save, to its end or cut short anywhere:
/// unless it has succeeded the store's file is as it was before, and if it has,
/// the file holds the whole of the new session. A directory that is missing is no
/// failure: nothing is written before it exists.
pub proof fn law_save_is_atomic(
    files: Files,
    json: Seq<u8>,
    has_parent: bool,
    turns: Seq<SaveTurn>,
)
    requires
        save_run(json, save_start(files, has_parent), turns) is Some,
    ensures
        ({
            let p = save_run(json, save_start(files, has_parent), turns)->0;
            match p.progress {
                SaveProgress::Next(step) => {
                    &&& p.files.file == files.file
                    &&& has_parent && step != SaveStep::CreateParent ==> p.files.parent
                },
                SaveProgress::Done(Ok(_)) => p.files.file == Some(json),
                SaveProgress::Done(Err(_)) => p.files.file == files.file,
            }
        }),
{
    lemma_save_run(files.file, json, has_parent, save_start(files, has_parent), turns);
}

/// What a load holds: the bytes of a session, or nothing.
pub open spec fn load_model(session: Result<Option<Vec<u8>>, BoosterError>) -> Result<
    Option<Seq<u8>>,
    BoosterError,
> {
    match session {
        Ok(Some(bytes)) => Ok(Some(bytes@)),
        Ok(None) => Ok(None),
        Err(e) => Err(e),
    }
}

/// Whether reading the file failed for another reason than that there is none.
pub open spec fn read_fails(read: Result<Vec<u8>, FileError>) -> bool {
    read matches Err(FileError::Failed(_))
}

/// A save that does not succeed loses nothing: a load gives what it gave before. One
/// that succeeds makes a load give the new session whole.
pub proof fn law_save_decides_the_load(
    files: Files,
    json: Seq<u8>,
    has_parent: bool,
    turns: Seq<SaveTurn>,
    before: Result<Vec<u8>, FileError>,
    after: Result<Vec<u8>, FileError>,
)
    requires
        save_run(json, save_start(files, has_parent), turns) is Some,
        read_does(files, before),
        read_does(save_run(json, save_start(files, has_parent), turns)->0.files, after),
        !read_fails(before),
        !read_fails(after),
    ensures
        load_model(loaded(after)) == if save_run(
            json,
            save_start(files, has_parent),
            turns,
        )->0.progress matches SaveProgress::Done(Ok(_)) {
            Ok(Some(json))
        } else {
            load_model(loaded(before))
        },
{
    law_save_is_atomic(files, json, has_parent, turns);
}

/// One thing that is done to a store, with what the file operations made of it. A
/// save may be cut short.
pub enum StoreEvent {
    Save { json: Seq<u8>, has_parent: bool, turns: Seq<SaveTurn> },
    Clear { removed: Result<(), FileError>, files: Files },
    Load { read: Result<Vec<u8>, FileError> },
}

/// The files after `event`; `None` if it is not what the file operations may do.
pub open spec fn after_event(files: Files, event: StoreEvent) -> Option<Files> {
    match event {
        StoreEvent::Save { json, has_parent, turns } => match save_run(
            json,
            save_start(files, has_parent),
            turns,
        ) {
            Some(p) => Some(p.files),
            None => None,
        },
        StoreEvent::Clear { removed, files: after } => if remove_does(files, removed, after) {
            Some(after)
        } else {
            None
        },
        StoreEvent::Load { read } => if read_does(files, read) {
            Some(files)
        } else {
            None
        },
    }
}

/// The files after `events`, one after the other.
pub open spec fn after_events(files: Files, events: Seq<StoreEvent>) -> Option<Files>
    decreases events.len(),
{
    if events.len() == 0 {
        Some(files)
    } else {
        match after_events(files, events.drop_last()) {
            Some(f) => after_event(f, events.last()),
            None => None,
        }
    }
}

/// What was written last: by the latest save or clear that succeeded, or, if there
/// was none, what the store held at first.
pub open spec fn last_written(files: Files, events: Seq<StoreEvent>) -> Option<Seq<u8>>
    decreases events.len(),
{
    if events.len() == 0 {
        files.file
    } else {
        let earlier = last_written(files, events.drop_last());
        match events.last() {
            StoreEvent::Save { json, has_parent, turns } => {
                let f = after_events(files, events.drop_last())->0;
                match save_run(json, save_start(f, has_parent), turns)->0.progress {
                    SaveProgress::Done(Ok(_)) => Some(json),
                    _ => earlier,
                }
            },
            StoreEvent::Clear { removed, .. } => match cleared(removed) {
                Ok(_) => None,
                Err(_) => earlier,
            },
            StoreEvent::Load { .. } => earlier,
        }
    }
}

proof fn lemma_last_written(files: Files, events: Seq<StoreEvent>)
    requires
        after_events(files, events) is Some,
    ensures
        after_events(files, events)->0.file == last_written(files, events),
    decreases events.len(),
{
    if events.len() > 0 {
        lemma_last_written(files, events.drop_last());
        let f = after_events(files, events.drop_last())->0;
        match events.last() {
            StoreEvent::Save { json, has_parent, turns } => {
                law_save_is_atomic(f, json, has_parent, turns);
            },
            _ => {},
        }
    }
}

/// A load gives back what was written last. Take any history of saves, clears and
/// loads, by this or another store on the same path, in which anything may fail or
/// be cut short, and then a load whose reading does not fail: it gives the session
/// of the latest save that succeeded, or nothing if the latest success was a clear.
pub proof fn law_load_gives_back_the_last_save(
    files: Files,
    events: Seq<StoreEvent>,
    read: Result<Vec<u8>, FileError>,
)
    requires
        after_events(files, events) is Some,
        read_does(after_events(files, events)->0, read),
        !read_fails(read),
    ensures
        load_model(loaded(read)) == Ok::<_, BoosterError>(last_written(files, events)),
{
    lemma_last_written(files, events);
}

/// A load gives back the session that was saved last. In whatever form a session is
/// written, if that form can be parsed back, a load whose reading does not fail,
/// after a save that succeeded, parses to the session that was saved.
pub proof fn law_load_gives_back_the_session(
    files: Files,
    session: SessionModel,
    write: spec_fn(SessionModel) -> Seq<u8>,
    parse: spec_fn(Seq<u8>) -> Option<SessionModel>,
    has_parent: bool,
    turns: Seq<SaveTurn>,
    read: Result<Vec<u8>, FileError>,
)
    requires
        parse(write(session)) == Some(session),
        save_run(write(session), save_start(files, has_parent), turns) is Some,
        save_run(write(session), save_start(files, has_parent), turns)->0.progress matches
            SaveProgress::Done(Ok(_)),
        read_does(
            save_run(write(session), save_start(files, has_parent), turns)->0.files,
            read,
        ),
        !read_fails(read),
    ensures
        loaded(read) is Ok,
        loaded(read)->Ok_0 is Some,
        parse(loaded(read)->Ok_0->0@) == Some(session),
{
    law_save_is_atomic(files, write(session), has_parent, turns);
}

/// A read that fails is no empty store: the load fails too, with the same message. The
/// same holds of clearing.
pub proof fn law_file_failures_are_reported(message: String)
    ensures
        loaded(Err(FileError::Failed(message))) == Err::<Option<Vec<u8>>, _>(
            BoosterError::Io(message),
        ),
        cleared(Err(FileError::Failed(message))) == Err::<(), _>(BoosterError::Io(message)),
        cleared(Ok(())) is Ok,
        cleared(Err(FileError::NotFound)) is Ok,
{
}

/// A save ends: after its steps in order, each of them once, or with the failure of the
/// one that failed.
pub proof fn law_save_ends(has_parent: bool, step: SaveStep, e: BoosterError)
    ensures
        save_follows(step, Err(e)) == SaveProgress::Done(Err(e)),
        first_step(true) == SaveStep::CreateParent,
        first_step(false) == SaveStep::WriteTemp,
        save_follows(SaveStep::CreateParent, Ok(())) == SaveProgress::Next(SaveStep::WriteTemp),
        save_follows(SaveStep::WriteTemp, Ok(())) == SaveProgress::Next(SaveStep::Rename),
        save_follows(SaveStep::Rename, Ok(())) matches SaveProgress::Done(Ok(_)),
{
}

} // verus!
