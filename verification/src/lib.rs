//! Core of a terminal dashboard that tails several text files at once, each
//! in its own tiled pane.
//!
//! This crate holds the verified logic: the grid layout engine, the per-file
//! line buffer with incremental re-scan and change highlighting, the window
//! viewport and repaint algorithm, and the pane registry that routes keyboard
//! events.  Everything that touches the outside world (the terminal, files,
//! threads) is driven by a thin unverified shell that feeds this library plain
//! values and carries out the screen commands it emits.

use vstd::prelude::*;
use vstd::string::StringExecFns;

pub mod buffer;
pub mod container;
pub mod frame;
pub mod layout;
pub mod panel;
pub mod screen;
pub mod text;
pub mod util;
pub mod window;

verus! {

/// The error taxonomy of the library.
#[derive(Clone, Copy, Debug, PartialEq, Eq, Structural)]
pub enum Error {
    /// A file to attach could not be found.
    NotFound,
    /// A file to attach could not be opened for reading.
    PermissionDenied,
    /// A buffer was attached a second time.
    AlreadyAttached,
    /// A read hit the end of the buffer.
    EndOfBuffer,
    /// A layout asked for panes too small to carry a border.
    BadLayout,
    /// Any other failure.
    Other,
}

/// The run-time options, as the command line sets them.
#[derive(Debug)]
pub struct Opt {
    /// Panes per column (or per row when rotated), one entry per column.
    pub layout: Vec<usize>,
    /// Refresh interval, whole seconds.
    pub sinterval: u64,
    /// Refresh interval, leftover milliseconds.
    pub minterval: u64,
    /// Foreground color, or -1 for none.
    pub fgcolor: i16,
    /// Background color, or -1 for none.
    pub bgcolor: i16,
    /// Prefix each line with its 1-based number.
    pub showlnum: bool,
    /// Fold long lines across rows instead of clipping them.
    pub foldline: bool,
    /// Rotate the layout: row-major instead of column-major.
    pub rotatecol: bool,
    /// Highlight lines whose content changed since the last pass.
    pub blinkline: bool,
    /// Randomize each pane's first repaint delay.
    pub usedelay: bool,
    /// Write a debug log.
    pub debug: bool,
}

impl Default for Opt {
    /// One-second refresh, no colors, change-highlighting on, everything
    /// else off.
    fn default() -> (res: Opt)
        ensures
            res.layout@.len() == 0,
            res.sinterval == 1,
            res.minterval == 0,
            res.fgcolor == -1,
            res.bgcolor == -1,
            !res.showlnum,
            !res.foldline,
            !res.rotatecol,
            res.blinkline,
            !res.usedelay,
            !res.debug,
    {
        Opt {
            layout: Vec::new(),
            sinterval: 1,
            minterval: 0,
            fgcolor: -1,
            bgcolor: -1,
            showlnum: false,
            foldline: false,
            rotatecol: false,
            blinkline: true,
            usedelay: false,
            debug: false,
        }
    }
}

/// The pane count one layout character asks for: a hexadecimal digit's
/// value, any other character zero (coerced to one later).
pub open spec fn layout_digit(c: char) -> usize {
    if '1' <= c <= '9' {
        (c as u32 - 0x30) as usize
    } else if 'a' <= c <= 'f' {
        (c as u32 - 0x57) as usize
    } else if 'A' <= c <= 'F' {
        (c as u32 - 0x37) as usize
    } else {
        0
    }
}

/// Parse a layout specification string, one pane count per character.
pub fn parse_layout(s: &str) -> (res: Vec<usize>)
    ensures
        res@.len() == s@.len(),
        forall|i: int| 0 <= i < s@.len() ==> res@[i] == layout_digit(s@[i]),
{
    let n = s.unicode_len();
    let mut out: Vec<usize> = Vec::new();
    for i in 0..n
        invariant
            n == s@.len(),
            out@.len() == i,
            forall|k: int| 0 <= k < i ==> out@[k] == layout_digit(s@[k]),
    {
        let c = s.get_char(i);
        let u = c as u32;
        let v: usize = if u >= 0x31 && u <= 0x39 {
            (u - 0x30) as usize
        } else if u >= 0x61 && u <= 0x66 {
            (u - 0x57) as usize
        } else if u >= 0x41 && u <= 0x46 {
            (u - 0x37) as usize
        } else {
            0
        };
        out.push(v);
    }
    out
}

/// The default layout: one single-pane column per attached file.
pub fn default_layout(n: usize) -> (res: Vec<usize>)
    ensures
        res@.len() == n,
        forall|i: int| 0 <= i < n ==> res@[i] == 1,
{
    let mut out: Vec<usize> = Vec::new();
    for i in 0..n
        invariant
            out@.len() == i,
            forall|k: int| 0 <= k < i ==> out@[k] == 1,
    {
        out.push(1);
    }
    out
}

/// Split a millisecond interval into whole seconds and leftover
/// milliseconds, for the flag that reinterprets the interval.
pub fn split_interval(t: u64) -> (res: (u64, u64))
    ensures
        res.0 == t / 1000,
        res.1 == t % 1000,
{
    (t / 1000, t % 1000)
}

/// The version of the library.
pub fn get_version_string() -> (res: String)
    ensures
        res@ == "0.1.7"@,
{
    String::from_str("0.1.7")
}

} // verus!
