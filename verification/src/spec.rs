//! What to show: colours, scaling modes, transitions.

use vstd::prelude::*;
use vstd::std_specs::convert::FromSpecImpl;
use crate::cli::{ModeArg, TransitionArg, WipeFromArg};
use crate::text::{digit_char, hex_byte, is_space, push_hex_byte, trim_bounds, trimmed};

verus! {

/// How an image is fitted to an output.
#[derive(Clone, Copy, Debug, PartialEq, Eq, Structural)]
pub enum Mode {
    Fill,
    Fit,
    Stretch,
    Center,
    Tile,
}

/// What happens between the old contents and the new.
#[derive(Clone, Copy, Debug, PartialEq, Eq, Structural)]
pub enum Transition {
    Instant,
    Fade,
    Wipe,
}

/// The edge a wipe starts from.
#[derive(Clone, Copy, Debug, PartialEq, Eq, Structural)]
pub enum WipeFrom {
    Left,
    Right,
}

/// A transition with its duration in milliseconds and, for a wipe, the edge
/// it starts from.
#[derive(Clone, Copy, Debug, PartialEq, Eq, Structural)]
pub struct TransitionSpec {
    pub kind: Transition,
    pub duration: u32,
    pub wipe_from: WipeFrom,
}

/// Three 8-bit channels.
#[derive(Clone, Copy, Debug, PartialEq, Eq, Structural)]
pub struct Rgb {
    pub r: u8,
    pub g: u8,
    pub b: u8,
}

/// The XRGB8888 word of three channels: red in bits 16..24, green in bits
/// 8..16, blue in bits 0..8, the high byte zero.
pub open spec fn pack_xrgb(r: u8, g: u8, b: u8) -> u32 {
    (r as nat * 65536 + g as nat * 256 + b as nat) as u32
}

impl From<ModeArg> for Mode {
    fn from(m: ModeArg) -> (r: Mode) {
        match m {
            ModeArg::Fill => Mode::Fill,
            ModeArg::Fit => Mode::Fit,
            ModeArg::Stretch => Mode::Stretch,
            ModeArg::Center => Mode::Center,
            ModeArg::Tile => Mode::Tile,
        }
    }
}

impl FromSpecImpl<ModeArg> for Mode {
    open spec fn obeys_from_spec() -> bool {
        true
    }

    open spec fn from_spec(m: ModeArg) -> Mode {
        match m {
            ModeArg::Fill => Mode::Fill,
            ModeArg::Fit => Mode::Fit,
            ModeArg::Stretch => Mode::Stretch,
            ModeArg::Center => Mode::Center,
            ModeArg::Tile => Mode::Tile,
        }
    }
}

impl From<TransitionArg> for Transition {
    fn from(t: TransitionArg) -> (r: Transition) {
        match t {
            TransitionArg::Instant => Transition::Instant,
            TransitionArg::Fade => Transition::Fade,
            TransitionArg::Wipe => Transition::Wipe,
        }
    }
}

impl FromSpecImpl<TransitionArg> for Transition {
    open spec fn obeys_from_spec() -> bool {
        true
    }

    open spec fn from_spec(t: TransitionArg) -> Transition {
        match t {
            TransitionArg::Instant => Transition::Instant,
            TransitionArg::Fade => Transition::Fade,
            TransitionArg::Wipe => Transition::Wipe,
        }
    }
}

impl From<WipeFromArg> for WipeFrom {
    fn from(w: WipeFromArg) -> (r: WipeFrom) {
        match w {
            WipeFromArg::Left => WipeFrom::Left,
            WipeFromArg::Right => WipeFrom::Right,
        }
    }
}

impl FromSpecImpl<WipeFromArg> for WipeFrom {
    open spec fn obeys_from_spec() -> bool {
        true
    }

    open spec fn from_spec(w: WipeFromArg) -> WipeFrom {
        match w {
            WipeFromArg::Left => WipeFrom::Left,
            WipeFromArg::Right => WipeFrom::Right,
        }
    }
}

impl Default for WipeFrom {
    fn default() -> (w: WipeFrom)
        ensures
            w == WipeFrom::Left,
    {
        WipeFrom::Left
    }
}

impl Default for TransitionSpec {
    fn default() -> (t: TransitionSpec)
        ensures
            t == (TransitionSpec {
                kind: Transition::Instant,
                duration: 200,
                wipe_from: WipeFrom::Left,
            }),
    {
        TransitionSpec { kind: Transition::Instant, duration: 200, wipe_from: WipeFrom::Left }
    }
}

/// Why a text is no colour.
#[derive(Clone, Copy, Debug, PartialEq, Eq, Structural)]
pub enum ColourError {
    /// The text, trimmed and without its hash, is not six characters long.
    BadLength,
    /// One of the three pairs is no hexadecimal number.
    BadDigit,
}

/// The value of a hexadecimal digit of either case.
pub open spec fn hex_value(c: char) -> Option<u8> {
    let v = c as u32;
    if 0x30 <= v <= 0x39 {
        Some((v - 0x30) as u8)
    } else if 0x41 <= v <= 0x46 {
        Some((v - 0x41 + 10) as u8)
    } else if 0x61 <= v <= 0x66 {
        Some((v - 0x61 + 10) as u8)
    } else {
        None
    }
}

/// The value of a pair of hexadecimal digits, the first the higher; no
/// value where either character is no hexadecimal digit.
pub open spec fn pair_value(c0: char, c1: char) -> Option<u8> {
    match (hex_value(c0), hex_value(c1)) {
        (Some(high), Some(low)) => Some((high * 16 + low) as u8),
        _ => None,
    }
}

/// The text without one leading hash.
pub open spec fn without_hash(t: Seq<char>) -> Seq<char> {
    if t.len() > 0 && t[0] == '#' {
        t.subrange(1, t.len() as int)
    } else {
        t
    }
}

/// The colour that a text denotes: trimmed and without its hash it is six
/// hexadecimal digits of either case, two each for red, green and blue.
pub open spec fn parsed(s: Seq<char>) -> Result<Rgb, ColourError> {
    let h = without_hash(trimmed(s));
    if h.len() != 6 {
        Err(ColourError::BadLength)
    } else {
        match (pair_value(h[0], h[1]), pair_value(h[2], h[3]), pair_value(h[4], h[5])) {
            (Some(r), Some(g), Some(b)) => Ok(Rgb { r, g, b }),
            _ => Err(ColourError::BadDigit),
        }
    }
}

fn hex_digit(c: char) -> (r: Option<u8>)
    ensures
        r == hex_value(c),
{
    let v = c as u32;
    if 0x30 <= v && v <= 0x39 {
        Some((v - 0x30) as u8)
    } else if 0x41 <= v && v <= 0x46 {
        Some((v - 0x41 + 10) as u8)
    } else if 0x61 <= v && v <= 0x66 {
        Some((v - 0x61 + 10) as u8)
    } else {
        None
    }
}

fn hex_pair(c0: char, c1: char) -> (r: Option<u8>)
    ensures
        r == pair_value(c0, c1),
{
    match (hex_digit(c0), hex_digit(c1)) {
        (Some(high), Some(low)) => Some(high * 16 + low),
        _ => None,
    }
}

impl Rgb {
    /// The XRGB8888 pixel of the colour.
    pub open spec fn pixel(self) -> u32 {
        pack_xrgb(self.r, self.g, self.b)
    }

    /// Reads a colour from `#RRGGBB`; the hash may be left out, white space
    /// around the text is ignored.
    pub fn parse(s: &str) -> (r: Result<Rgb, ColourError>)
        ensures
            r == parsed(s@),
    {
        let (start, end) = trim_bounds(s);
        let mut from = start;
        if from < end && s.get_char(from) == '#' {
            from += 1;
        }
        if end - from != 6 {
            return Err(ColourError::BadLength);
        }
        let r = hex_pair(s.get_char(from), s.get_char(from + 1));
        let g = hex_pair(s.get_char(from + 2), s.get_char(from + 3));
        let b = hex_pair(s.get_char(from + 4), s.get_char(from + 5));
        match (r, g, b) {
            (Some(r), Some(g), Some(b)) => Ok(Rgb { r, g, b }),
            _ => Err(ColourError::BadDigit),
        }
    }

    /// The text of the colour: a hash and six upper-case hexadecimal digits.
    pub open spec fn hex(self) -> Seq<char> {
        seq!['#'] + hex_byte(self.r) + hex_byte(self.g) + hex_byte(self.b)
    }

    /// Writes the colour as `#RRGGBB`.
    pub fn to_hex(self) -> (s: String)
        ensures
            s@ == self.hex(),
            parsed(s@) == Ok::<Rgb, ColourError>(self),
    {
        proof {
            reveal_strlit("#");
            lemma_hex_reads_back(self);
        }
        let mut s = String::from_str("#");
        push_hex_byte(&mut s, self.r);
        push_hex_byte(&mut s, self.g);
        push_hex_byte(&mut s, self.b);
        s
    }

    /// Encodes the colour as one XRGB8888 pixel.
    pub fn xrgb8888(self) -> (px: u32)
        ensures
            px == self.pixel(),
    {
        let r: u32 = self.r as u32;
        let g: u32 = self.g as u32;
        let b: u32 = self.b as u32;
        assert((r << 16) | (g << 8) | b == r * 65536 + g * 256 + b) by (bit_vector)
            requires
                r < 256,
                g < 256,
                b < 256,
        ;
        (r << 16) | (g << 8) | b
    }
}


/// One request to show something: an image or a solid colour, on one output
/// or (with `output` absent) on all of them.
#[derive(Debug, Clone, PartialEq, Eq)]
pub enum Spec {
    Image { path: String, mode: Mode, colour: Rgb, output: Option<String>, transition: TransitionSpec },
    Colour { colour: Rgb, output: Option<String>, transition: TransitionSpec },
}

/// The characters of an optional string.
pub open spec fn opt_chars(o: Option<String>) -> Option<Seq<char>> {
    match o {
        Some(s) => Some(s@),
        None => None,
    }
}

/// The characters of an optional string slice.
pub open spec fn opt_str_chars(o: Option<&str>) -> Option<Seq<char>> {
    match o {
        Some(s) => Some(s@),
        None => None,
    }
}

/// Mathematical value of a `Spec`.
pub enum SpecView {
    Image {
        path: Seq<char>,
        mode: Mode,
        colour: Rgb,
        output: Option<Seq<char>>,
        transition: TransitionSpec,
    },
    Colour { colour: Rgb, output: Option<Seq<char>>, transition: TransitionSpec },
}

impl View for Spec {
    type V = SpecView;

    open spec fn view(&self) -> SpecView {
        match *self {
            Spec::Image { path, mode, colour, output, transition } => SpecView::Image {
                path: path@,
                mode,
                colour,
                output: opt_chars(output),
                transition,
            },
            Spec::Colour { colour, output, transition } => SpecView::Colour {
                colour,
                output: opt_chars(output),
                transition,
            },
        }
    }
}

impl Spec {
    /// A copy of the request.
    pub fn duplicate(&self) -> (s: Spec)
        ensures
            s@ == self@,
    {
        match self {
            Spec::Image { path, mode, colour, output, transition } => Spec::Image {
                path: path.clone(),
                mode: *mode,
                colour: *colour,
                output: match output {
                    Some(o) => Some(o.clone()),
                    None => None,
                },
                transition: *transition,
            },
            Spec::Colour { colour, output, transition } => Spec::Colour {
                colour: *colour,
                output: match output {
                    Some(o) => Some(o.clone()),
                    None => None,
                },
                transition: *transition,
            },
        }
    }
}

impl SpecView {
    /// The output the request names, if any.
    pub open spec fn output(self) -> Option<Seq<char>> {
        match self {
            SpecView::Image { output, .. } => output,
            SpecView::Colour { output, .. } => output,
        }
    }

    /// The colour of the request: the fill colour, or an image's background.
    pub open spec fn colour(self) -> Rgb {
        match self {
            SpecView::Image { colour, .. } => colour,
            SpecView::Colour { colour, .. } => colour,
        }
    }

    /// The transition of the request.
    pub open spec fn transition(self) -> TransitionSpec {
        match self {
            SpecView::Image { transition, .. } => transition,
            SpecView::Colour { transition, .. } => transition,
        }
    }
}


/// A digit's character is no white space, and reads back as the digit.
proof fn lemma_digit_reads_back(d: int)
    requires
        0 <= d < 16,
    ensures
        hex_value(digit_char(d)) == Some(d as u8),
        !is_space(digit_char(d)),
        digit_char(d) != '#',
{
}

/// Every colour reads back from its own text: parsing what `to_hex` writes
/// gives the colour again.
pub proof fn lemma_hex_reads_back(c: Rgb)
    ensures
        parsed(c.hex()) == Ok::<Rgb, ColourError>(c),
{
    let s = c.hex();
    let r = c.r as int;
    let g = c.g as int;
    let b = c.b as int;
    lemma_digit_reads_back(r / 16);
    lemma_digit_reads_back(r % 16);
    lemma_digit_reads_back(g / 16);
    lemma_digit_reads_back(g % 16);
    lemma_digit_reads_back(b / 16);
    lemma_digit_reads_back(b % 16);
    assert(s.len() == 7);
    assert(s[0] == '#');
    assert(s[1] == digit_char(r / 16) && s[2] == digit_char(r % 16));
    assert(s[3] == digit_char(g / 16) && s[4] == digit_char(g % 16));
    assert(s[5] == digit_char(b / 16) && s[6] == digit_char(b % 16));
    assert(!is_space('#'));
    assert(crate::text::skip_space(s, 0) == 0);
    assert(crate::text::drop_space(s, 0, 7) == 7);
    assert(trimmed(s) =~= s);
    let h = without_hash(trimmed(s));
    assert(h =~= s.subrange(1, 7));
    assert(h.len() == 6);
    assert(h[0] == s[1] && h[1] == s[2] && h[2] == s[3] && h[3] == s[4] && h[4] == s[5] && h[5]
        == s[6]);
    assert(pair_value(h[0], h[1]) == Some(c.r));
    assert(pair_value(h[2], h[3]) == Some(c.g));
    assert(pair_value(h[4], h[5]) == Some(c.b));
}

} // verus!
