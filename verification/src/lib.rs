//! SystemBooster: frees a computer for one job by suspending what it can do
//! without, and puts everything back afterwards.
//!
//! The library decides and its host acts. [`classify`] says what may be touched;
//! [`engine`] applies a boost and undoes it, one [`engine::Action`] at a time;
//! [`session`] is the record of what was changed, which [`store`] keeps on disk
//! while the boost lasts; [`host`] and [`ipc`] meet the requests of the desktop
//! front-end. [`process`] and [`service`] hold the backends' interfaces,
//! [`memory`] a system in memory, and [`win32`] what the Windows backends decide.
//!
//! What all this guarantees is stated and proved in [`safety`] (what is never
//! touched), [`replies`] (what the operations ask for, reply by reply),
//! [`completeness`] (that nothing is left out), [`recovery`] (what is on disk, and
//! what a restore does) and [`runs`] (whole boosts, undone or cut short).

pub mod classify;
pub mod completeness;
pub mod engine;
pub mod error;
pub mod host;
pub mod ipc;
pub mod memory;
pub mod model;
pub mod process;
pub mod recovery;
pub mod replies;
pub mod runs;
pub mod safety;
pub mod scan;
pub mod service;
pub mod session;
pub mod snapshot;
pub mod store;
pub mod text;
pub mod time;
pub mod win32;

pub use engine::{BoostReport, BoosterEngine};
pub use error::BoosterError;
pub use scan::{Candidate, ScanResult};
