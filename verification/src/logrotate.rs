//! Rotation of the log file: when, and which files move where.

use vstd::prelude::*;
use crate::text::{decimal, push_decimal};

verus! {

/// Size at which the log is rotated, by default.
pub const DEFAULT_MAX_BYTES: u64 = 5242880;

/// Number of rotated logs kept, by default.
pub const DEFAULT_KEEP_BACKUPS: u32 = 5;

/// Rotation policy of the log file.
#[derive(Clone, Copy, Debug, PartialEq, Eq, Structural)]
pub struct LogPolicy {
    pub max_bytes: u64,
    pub keep_backups: u32,
}

impl Default for LogPolicy {
    fn default() -> (p: LogPolicy)
        ensures
            p == (LogPolicy { max_bytes: DEFAULT_MAX_BYTES, keep_backups: DEFAULT_KEEP_BACKUPS }),
    {
        LogPolicy { max_bytes: DEFAULT_MAX_BYTES, keep_backups: DEFAULT_KEEP_BACKUPS }
    }
}

/// What to do with the log file before it is opened.
#[derive(Clone, Copy, Debug, PartialEq, Eq, Structural)]
pub enum LogStart {
    /// There is no log, or an empty one: start afresh.
    Fresh,
    /// The log has reached its size: rotate it, then start afresh.
    Rotate,
    /// The log goes on: separate the new run from the last.
    Continue,
}

/// Decides what to do with a log file of the given size, if it exists,
/// before the log is opened.
pub fn prepare_log_file(size: Option<u64>, policy: LogPolicy) -> (r: LogStart)
    ensures
        r == match size {
            None => LogStart::Fresh,
            Some(n) => if n == 0 {
                LogStart::Fresh
            } else if n >= policy.max_bytes {
                LogStart::Rotate
            } else {
                LogStart::Continue
            },
        },
{
    match size {
        None => LogStart::Fresh,
        Some(n) => {
            if n == 0 {
                LogStart::Fresh
            } else if n >= policy.max_bytes {
                LogStart::Rotate
            } else {
                LogStart::Continue
            }
        },
    }
}

/// Name of rotated log number `n`: the log's path, a dot, the number.
pub open spec fn rotated(base: Seq<char>, n: u32) -> Seq<char> {
    base + seq!['.'] + decimal(n as nat)
}

/// Name of rotated log number `n`.
pub fn rotated_name(base: &str, n: u32) -> (p: String)
    ensures
        p@ == rotated(base@, n),
{
    proof {
        reveal_strlit(".");
    }
    let mut p = String::from_str(base);
    p.append(".");
    push_decimal(&mut p, n as u64);
    p
}

/// One step of a rotation.
#[derive(Clone, Debug, PartialEq, Eq)]
pub enum RotateStep {
    /// Remove the log.
    Remove { path: String },
    /// Rename a file; where `if_exists` is set, only if it is there.
    Rename { from: String, to: String, if_exists: bool },
}

/// Mathematical value of a rotation step.
pub enum RotateStepView {
    Remove { path: Seq<char> },
    Rename { from: Seq<char>, to: Seq<char>, if_exists: bool },
}

impl View for RotateStep {
    type V = RotateStepView;

    open spec fn view(&self) -> RotateStepView {
        match *self {
            RotateStep::Remove { path } => RotateStepView::Remove { path: path@ },
            RotateStep::Rename { from, to, if_exists } => RotateStepView::Rename {
                from: from@,
                to: to@,
                if_exists,
            },
        }
    }
}

/// The views of the steps of a rotation.
pub open spec fn steps_view(steps: Seq<RotateStep>) -> Seq<RotateStepView> {
    Seq::new(steps.len(), |i: int| steps[i]@)
}

/// The steps of a rotation that keeps `keep` rotated logs: without any
/// kept, the log is removed; else each rotated log moves up by one, the
/// oldest first, and the log becomes number one.
pub open spec fn rotation(base: Seq<char>, keep: u32) -> Seq<RotateStepView> {
    if keep == 0 {
        seq![RotateStepView::Remove { path: base }]
    } else {
        Seq::new(
            keep as nat,
            |k: int|
                if k < keep - 1 {
                    RotateStepView::Rename {
                        from: rotated(base, (keep - 1 - k) as u32),
                        to: rotated(base, (keep - k) as u32),
                        if_exists: true,
                    }
                } else {
                    RotateStepView::Rename { from: base, to: rotated(base, 1), if_exists: false }
                },
        )
    }
}

/// Plans the rotation of the log at `base`.
pub fn rotate(base: &str, keep_backups: u32) -> (steps: Vec<RotateStep>)
    ensures
        steps_view(steps@) == rotation(base@, keep_backups),
{
    let mut steps: Vec<RotateStep> = Vec::new();
    if keep_backups == 0 {
        steps.push(RotateStep::Remove { path: String::from_str(base) });
        return steps;
    }
    let mut i: u32 = keep_backups - 1;
    while i >= 1
        invariant
            i < keep_backups,
            steps.len() == keep_backups - 1 - i,
            forall|k: int|
                0 <= k < steps.len() ==> (#[trigger] steps[k])@ == rotation(base@, keep_backups)[k],
        decreases i,
    {
        let from = rotated_name(base, i);
        let to = rotated_name(base, i + 1);
        steps.push(RotateStep::Rename { from, to, if_exists: true });
        i -= 1;
    }
    steps.push(
        RotateStep::Rename {
            from: String::from_str(base),
            to: rotated_name(base, 1),
            if_exists: false,
        },
    );
    steps
}

/// The line that begins a run of the daemon in its log.
pub open spec fn header(pid: u32) -> Seq<char> {
    "==================== gesso daemon run start (pid="@ + decimal(pid as nat)
        + ") ===================="@
}

/// The line that begins a run of the daemon with process id `pid`.
pub fn run_header(pid: u32) -> (line: String)
    ensures
        line@ == header(pid),
{
    let mut line = String::from_str("==================== gesso daemon run start (pid=");
    push_decimal(&mut line, pid as u64);
    line.append(") ====================");
    line
}

} // verus!
