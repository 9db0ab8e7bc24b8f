//! Errors surfaced by the engine and its backends.

use vstd::prelude::*;

use crate::text::join;

verus! {

/// Why an operation of the engine, of a backend or of the session store failed.
#[derive(Debug)]
pub enum BoosterError {
    /// The operating system refused.
    Os(String),
    /// The item may never be modified.
    Protected(String),
    /// There is no boost to end.
    NoActiveSession,
    /// A stored session could not be written or read as JSON.
    Serde(String),
    /// A file operation failed.
    Io(String),
}

impl BoosterError {
    /// The text shown for this error.
    pub open spec fn text(&self) -> Seq<char> {
        match self {
            BoosterError::Os(m) => "OS error: "@ + m@,
            BoosterError::Protected(m) => "item is protected and may never be modified: "@ + m@,
            BoosterError::NoActiveSession => "no active boost session"@,
            BoosterError::Serde(m) => "serialization error: "@ + m@,
            BoosterError::Io(m) => "io error: "@ + m@,
        }
    }

    /// The text shown for this error.
    pub fn to_string(&self) -> (shown: String)
        ensures
            shown@ == self.text(),
    {
        match self {
            BoosterError::Os(m) => join("OS error: ", m.as_str()),
            BoosterError::Protected(m) => join(
                "item is protected and may never be modified: ",
                m.as_str(),
            ),
            BoosterError::NoActiveSession => "no active boost session".to_owned(),
            BoosterError::Serde(m) => join("serialization error: ", m.as_str()),
            BoosterError::Io(m) => join("io error: ", m.as_str()),
        }
    }
}

/// The text of an error tells what kind it is and ends with its message, whole.
pub proof fn law_text_tells_kind_and_message(message: String)
    ensures
        BoosterError::Os(message).text().take(10) == "OS error: "@,
        BoosterError::Os(message).text().skip(10) == message@,
        BoosterError::Protected(message).text().take(45)
            == "item is protected and may never be modified: "@,
        BoosterError::Protected(message).text().skip(45) == message@,
        BoosterError::Serde(message).text().take(21) == "serialization error: "@,
        BoosterError::Serde(message).text().skip(21) == message@,
        BoosterError::Io(message).text().take(10) == "io error: "@,
        BoosterError::Io(message).text().skip(10) == message@,
        BoosterError::NoActiveSession.text() == "no active boost session"@,
{
    reveal_strlit("OS error: ");
    reveal_strlit("item is protected and may never be modified: ");
    reveal_strlit("serialization error: ");
    reveal_strlit("io error: ");
    assert(BoosterError::Os(message).text().take(10) =~= "OS error: "@);
    assert(BoosterError::Os(message).text().skip(10) =~= message@);
    assert(BoosterError::Protected(message).text().take(45)
        =~= "item is protected and may never be modified: "@);
    assert(BoosterError::Protected(message).text().skip(45) =~= message@);
    assert(BoosterError::Serde(message).text().take(21) =~= "serialization error: "@);
    assert(BoosterError::Serde(message).text().skip(21) =~= message@);
    assert(BoosterError::Io(message).text().take(10) =~= "io error: "@);
    assert(BoosterError::Io(message).text().skip(10) =~= message@);
}

} // verus!
