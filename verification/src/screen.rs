//! The abstract screen capability.
//!
//! The core never draws: it emits screen commands — allocate, erase, print,
//! refresh — that an unverified shell carries out against a real terminal.
//! This module holds the command vocabulary, the cached terminal attributes,
//! the decoded keyboard alphabet, and the color-name table.

use vstd::prelude::*;
use vstd::string::StringExecFns;

verus! {

/// One operation on one drawing surface.
#[derive(Clone, Debug, PartialEq, Eq)]
pub enum ScreenOp {
    /// Allocate the surface with the given geometry.
    Alloc { ylen: usize, xlen: usize, ypos: usize, xpos: usize },
    /// Paint the surface background with a color attribute.
    Bkgd { attr: u32 },
    /// Draw the surface's border box.
    DrawBox,
    /// Erase the surface's content.
    Erase,
    /// Flush the surface to the terminal.
    Refresh,
    /// Resize the surface.
    Resize { ylen: usize, xlen: usize },
    /// Move the surface origin.
    MoveTo { ypos: usize, xpos: usize },
    /// Print text at a position, highlighted when `standout` is set.
    Print { y: usize, x: usize, standout: bool, attr: u32, text: Vec<u8> },
}

/// The two surfaces of a window: the bordered frame and the inner pane.
#[derive(Clone, Copy, Debug, PartialEq, Eq, Structural)]
pub enum Part {
    Frame,
    Panel,
}

/// A window operation addressed to one of the window's two surfaces.
#[derive(Debug, PartialEq, Eq)]
pub struct WinCmd {
    pub part: Part,
    pub op: ScreenOp,
}

/// A window operation addressed to one pane of the registry.
#[derive(Debug, PartialEq, Eq)]
pub struct DrawCmd {
    pub pane: usize,
    pub part: Part,
    pub op: ScreenOp,
}

/// An operation on the terminal as a whole.
#[derive(Clone, Copy, Debug, PartialEq, Eq, Structural)]
pub enum TermOp {
    /// Clear and refresh the whole terminal.
    Clear,
    /// Flash the terminal to signal a file change.
    Flash,
    /// End the screen session, restoring the cursor.
    End,
}

/// A decoded keyboard event.
#[derive(Clone, Copy, Debug, PartialEq, Eq, Structural)]
pub enum Key {
    /// The read timed out without a key.
    Idle,
    /// The terminal was resized.
    Resize,
    Up,
    Down,
    Left,
    Right,
    /// Any other key, as a character code.
    Char(u32),
}

/// The control-key code of a letter.
pub fn key_ctrl(x: u32) -> (res: u32)
    ensures
        res == x & 0x1f,
{
    x & 0x1f
}

/// Cached terminal attributes: size and the color and highlight attributes
/// the screen was initialised with.
#[derive(Clone, Copy, Debug)]
pub struct Attr {
    pub lines: usize,
    pub cols: usize,
    pub color_attr: u32,
    pub standout_attr: u32,
}

impl Attr {
    /// A blank attribute set.
    pub fn new() -> (res: Attr)
        ensures
            res.lines == 0,
            res.cols == 0,
            res.color_attr == 0,
            res.standout_attr == 0,
    {
        Attr { lines: 0, cols: 0, color_attr: 0, standout_attr: 0 }
    }

    pub fn get_terminal_lines(&self) -> (res: usize)
        ensures
            res == self.lines,
    {
        self.lines
    }

    pub fn get_terminal_cols(&self) -> (res: usize)
        ensures
            res == self.cols,
    {
        self.cols
    }

    pub fn get_color_attr(&self) -> (res: u32)
        ensures
            res == self.color_attr,
    {
        self.color_attr
    }

    pub fn get_standout_attr(&self) -> (res: u32)
        ensures
            res == self.standout_attr,
    {
        self.standout_attr
    }
}

/// Record a newly measured terminal size.
pub fn update_terminal_size(attr: &mut Attr, lines: usize, cols: usize)
    ensures
        final(attr).lines == lines,
        final(attr).cols == cols,
        final(attr).color_attr == old(attr).color_attr,
        final(attr).standout_attr == old(attr).standout_attr,
{
    attr.lines = lines;
    attr.cols = cols;
}

/// Build the screen attributes from a measured size and the attributes the
/// backend chose.  A size with a zero dimension means the terminal could not
/// be measured and is rejected.
pub fn init_screen(lines: usize, cols: usize, color_attr: u32, standout_attr: u32) -> (res: Result<
    Attr,
    crate::Error,
>)
    ensures
        (lines > 0 && cols > 0) <==> res is Ok,
        res is Ok ==> res->Ok_0 == (Attr { lines, cols, color_attr, standout_attr }),
        res is Err ==> res->Err_0 == crate::Error::Other,
{
    if lines == 0 || cols == 0 {
        return Err(crate::Error::Other);
    }
    Ok(Attr { lines, cols, color_attr, standout_attr })
}

/// End the screen session.
pub fn cleanup_screen() -> (ops: Vec<TermOp>)
    ensures
        ops@ =~= seq![TermOp::End],
{
    let mut v: Vec<TermOp> = Vec::new();
    v.push(TermOp::End);
    v
}

/// Clear the whole terminal.
pub fn clear_terminal() -> (op: TermOp)
    ensures
        op == TermOp::Clear,
{
    TermOp::Clear
}

/// Flash the terminal.
pub fn flash_terminal() -> (op: TermOp)
    ensures
        op == TermOp::Flash,
{
    TermOp::Flash
}

/// The color attribute a name stands for.
pub open spec fn color_spec(s: Seq<char>) -> i16 {
    if s == "black"@ {
        0
    } else if s == "red"@ {
        1
    } else if s == "green"@ {
        2
    } else if s == "yellow"@ {
        3
    } else if s == "blue"@ {
        4
    } else if s == "magenta"@ {
        5
    } else if s == "cyan"@ {
        6
    } else if s == "white"@ {
        7
    } else {
        -1i16
    }
}

/// Map a color name to its terminal color number; unknown names mean
/// "no color".
pub fn string_to_color(arg: &str) -> (res: i16)
    ensures
        res == color_spec(arg@),
{
    let a = String::from_str(arg);
    if a == String::from_str("black") {
        0
    } else if a == String::from_str("red") {
        1
    } else if a == String::from_str("green") {
        2
    } else if a == String::from_str("yellow") {
        3
    } else if a == String::from_str("blue") {
        4
    } else if a == String::from_str("magenta") {
        5
    } else if a == String::from_str("cyan") {
        6
    } else if a == String::from_str("white") {
        7
    } else {
        -1
    }
}

} // verus!
