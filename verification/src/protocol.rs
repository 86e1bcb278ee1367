//! What a client asks of the daemon, and what it is told.

use vstd::prelude::*;
use crate::spec::Spec;

verus! {

/// One request of a client.
#[derive(Debug, Clone, PartialEq, Eq)]
pub enum Request {
    Apply { spec: Spec },
    Stop,
    Unset { output: Option<String> },
    Status,
    Doctor,
}

/// The request in force, as reported to a client.
#[derive(Debug, Clone, PartialEq, Eq)]
pub struct CurrentStatus {
    pub spec: Spec,
    pub running: bool,
    pub note: String,
}

/// One line of a health report.
#[derive(Debug, Clone, PartialEq, Eq)]
pub struct DoctorCheck {
    pub name: String,
    pub ok: bool,
    pub detail: String,
}

/// The daemon's answer.
#[derive(Debug, Clone, PartialEq, Eq)]
pub enum Response {
    Done,
    Status { current: Option<CurrentStatus> },
    Doctor { checks: Vec<DoctorCheck> },
    Error { message: String },
}

} // verus!
