//! The answers to a client that need no compositor.

use vstd::prelude::*;
use crate::protocol::{CurrentStatus, DoctorCheck};
use crate::spec::Spec;
use crate::text::{decimal, push_decimal};
use crate::wallpaper::wayland::Probe;

verus! {

/// Mathematical value of one line of a health report.
pub struct CheckView {
    pub name: Seq<char>,
    pub ok: bool,
    pub detail: Seq<char>,
}

/// The views of the lines of a health report.
pub open spec fn checks_view(checks: Seq<DoctorCheck>) -> Seq<CheckView> {
    Seq::new(
        checks.len(),
        |i: int| CheckView { name: checks[i].name@, ok: checks[i].ok, detail: checks[i].detail@ },
    )
}

/// The health report of a probe: the display variable, the three globals,
/// and the number of outputs, which must not be zero.
pub open spec fn doctor_report(pr: Probe) -> Seq<CheckView> {
    seq![
        CheckView { name: "WAYLAND_DISPLAY set"@, ok: pr.wayland_display, detail: "Wayland-only"@ },
        CheckView { name: "wl_compositor"@, ok: pr.compositor, detail: "required"@ },
        CheckView { name: "wl_shm"@, ok: pr.shm, detail: "required (v1 renderer)"@ },
        CheckView {
            name: "zwlr_layer_shell_v1"@,
            ok: pr.layer_shell,
            detail: "required for wallpaper layer surfaces"@,
        },
        CheckView {
            name: "wl_output count"@,
            ok: pr.outputs > 0,
            detail: "seen: "@ + decimal(pr.outputs as nat),
        },
    ]
}

fn check(name: &str, ok: bool, detail: String) -> (c: DoctorCheck)
    ensures
        c.name@ == name@,
        c.ok == ok,
        c.detail@ == detail@,
{
    DoctorCheck { name: String::from_str(name), ok, detail }
}

/// The lines of the health report for a probe.
pub fn doctor_checks(pr: &Probe) -> (checks: Vec<DoctorCheck>)
    ensures
        checks_view(checks@) == doctor_report(*pr),
{
    let mut seen = String::from_str("seen: ");
    push_decimal(&mut seen, pr.outputs as u64);
    let mut checks: Vec<DoctorCheck> = Vec::new();
    checks.push(check("WAYLAND_DISPLAY set", pr.wayland_display, String::from_str("Wayland-only")));
    checks.push(check("wl_compositor", pr.compositor, String::from_str("required")));
    checks.push(check("wl_shm", pr.shm, String::from_str("required (v1 renderer)")));
    checks.push(
        check(
            "zwlr_layer_shell_v1",
            pr.layer_shell,
            String::from_str("required for wallpaper layer surfaces"),
        ),
    );
    checks.push(check("wl_output count", pr.outputs > 0, seen));
    checks
}

/// The note that goes with a status.
pub open spec fn status_note(running: bool) -> Seq<char> {
    if running {
        "running"@
    } else {
        "not running"@
    }
}

/// The status to report: the request in force with a note on whether the
/// engine runs, or nothing where no request is in force.
pub fn status_payload(current: Option<Spec>, running: bool) -> (status: Option<CurrentStatus>)
    ensures
        status is Some == current is Some,
        status is Some ==> status.unwrap().spec == current.unwrap() && status.unwrap().running
            == running && status.unwrap().note@ == status_note(running),
{
    match current {
        Some(spec) => Some(
            CurrentStatus {
                spec,
                running,
                note: if running {
                    String::from_str("running")
                } else {
                    String::from_str("not running")
                },
            },
        ),
        None => None,
    }
}

/// Whether a line read from a client holds a request: it does unless it is
/// empty or white space only.
pub fn line_has_request(line: &str) -> (r: bool)
    ensures
        r == (crate::text::trimmed(line@).len() > 0),
{
    let n = line.unicode_len();
    let mut i: usize = 0;
    while i < n
        invariant
            i <= n,
            n == line@.len(),
            forall|j: int| 0 <= j < i ==> crate::text::is_space(#[trigger] line@[j]),
            crate::text::skip_space(line@, 0) == crate::text::skip_space(line@, i as int),
        decreases n - i,
    {
        if !crate::text::is_space_char(line.get_char(i)) {
            proof {
                lemma_trim_keeps(line@, i as int);
            }
            return true;
        }
        i += 1;
    }
    false
}

/// A text whose first character that is no white space stands at `i` is
/// not empty once trimmed.
proof fn lemma_trim_keeps(s: Seq<char>, i: int)
    requires
        0 <= i < s.len(),
        !crate::text::is_space(s[i]),
        crate::text::skip_space(s, 0) == crate::text::skip_space(s, i),
    ensures
        crate::text::trimmed(s).len() > 0,
{
    lemma_drop_stops(s, i, s.len() as int);
}

proof fn lemma_drop_stops(s: Seq<char>, start: int, j: int)
    requires
        0 <= start < j <= s.len(),
        !crate::text::is_space(s[start]),
    ensures
        start < crate::text::drop_space(s, start, j) <= j,
    decreases j - start,
{
    if crate::text::is_space(s[j - 1]) {
        lemma_drop_stops(s, start, j - 1);
    }
}

} // verus!
