//! Whether the session the daemon serves is still there.

use vstd::prelude::*;
use crate::spec::opt_str_chars;
use crate::text::{join_path, joined, starts_with};

verus! {

/// Number of failed polls in a row after which the session counts as gone.
pub const MAX_FAILED_POLLS: u32 = 3;

/// What a probe of the session told.
#[derive(Clone, Copy, Debug, PartialEq, Eq, Structural)]
pub enum SessionProbe {
    Active,
    Inactive,
    /// The probe itself failed; nothing is known.
    Unknown,
}

/// The watcher's memory: how many polls in a row found the socket not
/// connectable, and how many found the session inactive.
#[derive(Clone, Copy, Debug, PartialEq, Eq, Structural)]
pub struct Watch {
    pub socket_failures: u32,
    pub inactive_failures: u32,
}

impl Watch {
    /// A watcher that has seen nothing yet.
    pub fn new() -> (w: Watch)
        ensures
            w == (Watch { socket_failures: 0, inactive_failures: 0 }),
    {
        Watch { socket_failures: 0, inactive_failures: 0 }
    }

    /// The count of failures in a row after one more poll.
    pub open spec fn counted(failures: u32, ok: bool) -> u32 {
        if ok {
            0
        } else if failures >= MAX_FAILED_POLLS {
            failures
        } else {
            (failures + 1) as u32
        }
    }

    /// Takes the result of connecting to the compositor's socket. Returns
    /// whether the daemon is to shut down: the socket was not connectable
    /// three polls in a row.
    pub fn on_socket(&mut self, connectable: bool) -> (shutdown: bool)
        ensures
            final(self).socket_failures == Watch::counted(old(self).socket_failures, connectable),
            final(self).inactive_failures == old(self).inactive_failures,
            shutdown == (final(self).socket_failures >= MAX_FAILED_POLLS),
    {
        if connectable {
            self.socket_failures = 0;
        } else if self.socket_failures < MAX_FAILED_POLLS {
            self.socket_failures += 1;
        }
        self.socket_failures >= MAX_FAILED_POLLS
    }

    /// Takes the result of probing the login session. Returns whether the
    /// daemon is to shut down: the session was inactive three polls in a
    /// row. A probe that failed counts as a sign of life.
    pub fn on_session(&mut self, probe: SessionProbe) -> (shutdown: bool)
        ensures
            final(self).inactive_failures == Watch::counted(
                old(self).inactive_failures,
                probe != SessionProbe::Inactive,
            ),
            final(self).socket_failures == old(self).socket_failures,
            shutdown == (final(self).inactive_failures >= MAX_FAILED_POLLS),
    {
        match probe {
            SessionProbe::Inactive => {
                if self.inactive_failures < MAX_FAILED_POLLS {
                    self.inactive_failures += 1;
                }
            },
            _ => {
                self.inactive_failures = 0;
            },
        }
        self.inactive_failures >= MAX_FAILED_POLLS
    }
}

/// Whether a file of the runtime directory is named like a compositor's
/// socket.
pub fn is_wayland_socket_name(name: &str) -> (r: bool)
    ensures
        r == "wayland-"@.is_prefix_of(name@),
{
    starts_with(name, "wayland-")
}

/// The socket that the display variable names, if it is set and not empty:
/// the name under the runtime directory.
pub fn wayland_socket_path(runtime_dir: &str, wayland_display: Option<&str>) -> (r: Option<String>)
    ensures
        r is Some == (wayland_display is Some && wayland_display.unwrap()@.len() > 0),
        r is Some ==> r.unwrap()@ == joined(runtime_dir@, wayland_display.unwrap()@),
{
    match wayland_display {
        Some(display) => {
            if display.unicode_len() > 0 {
                Some(join_path(runtime_dir, display))
            } else {
                None
            }
        },
        None => None,
    }
}

/// The reason to give when no compositor socket was found.
pub open spec fn probe_failure(session_type: Option<Seq<char>>, probe_err: Seq<char>) -> Seq<char> {
    match session_type {
        Some(t) => if t != "<unset>"@ && t != "wayland"@ {
            "not a wayland session: XDG_SESSION_TYPE="@ + t
        } else {
            probe_err
        },
        None => probe_err,
    }
}

/// Chooses the reason to give when no compositor socket was found: a
/// session of another type is named, else the probe's own error stands.
pub fn probe_failure_message(session_type: Option<&str>, probe_err: &str) -> (msg: String)
    ensures
        msg@ == probe_failure(opt_str_chars(session_type), probe_err@),
{
    match session_type {
        Some(t) => {
            let ty = String::from_str(t);
            let unset = String::from_str("<unset>");
            let wayland = String::from_str("wayland");
            if ty != unset && ty != wayland {
                let mut msg = String::from_str("not a wayland session: XDG_SESSION_TYPE=");
                msg.append(t);
                msg
            } else {
                String::from_str(probe_err)
            }
        },
        None => String::from_str(probe_err),
    }
}

} // verus!
