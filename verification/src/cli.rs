//! Plain forms of the command-line vocabulary.

use vstd::prelude::*;

verus! {

/// Scaling mode as named on the command line.
#[derive(Copy, Clone, Debug, PartialEq, Eq, Structural)]
pub enum ModeArg {
    Fill,
    Fit,
    Stretch,
    Center,
    Tile,
}

/// Gradient direction as named on the command line.
#[derive(Copy, Clone, Debug, PartialEq, Eq, Structural)]
pub enum GradientDirArg {
    Vertical,
    Horizontal,
    Diag1,
    Diag2,
}

/// Transition kind as named on the command line.
#[derive(Copy, Clone, Debug, PartialEq, Eq, Structural)]
pub enum TransitionArg {
    Instant,
    Fade,
    Wipe,
}

/// Wipe direction as named on the command line.
#[derive(Copy, Clone, Debug, PartialEq, Eq, Structural)]
pub enum WipeFromArg {
    Left,
    Right,
}

/// One parsed command.
#[derive(Clone, Debug, PartialEq, Eq)]
pub enum Command {
    SetImage {
        target: String,
        mode: ModeArg,
        colour: Option<String>,
        transition: TransitionArg,
        duration: u32,
        from: WipeFromArg,
        output: Option<String>,
    },
    Colour {
        colour: String,
        transition: TransitionArg,
        duration: u32,
        from: WipeFromArg,
        output: Option<String>,
    },
    Unset { output: Option<String> },
    Stop,
    Status,
    Doctor,
}

/// The parsed command line.
#[derive(Clone, Debug, PartialEq, Eq)]
pub struct Cli {
    pub cmd: Command,
}

} // verus!
