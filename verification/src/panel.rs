//! The inner content surface of one pane: the region inside the frame's
//! border where the file's lines are printed.

use vstd::prelude::*;

use crate::screen::{Attr, ScreenOp};

verus! {

#[derive(Debug)]
pub struct Panel {
    pub ylen: usize,
    pub xlen: usize,
    pub ypos: usize,
    pub xpos: usize,
}

impl Panel {
    /// A fresh panel: allocate its surface and paint the background.
    pub fn new(ylen: usize, xlen: usize, ypos: usize, xpos: usize, attr: &Attr) -> (res: (
        Panel,
        Vec<ScreenOp>,
    ))
        ensures
            res.0.ylen == ylen && res.0.xlen == xlen && res.0.ypos == ypos && res.0.xpos == xpos,
            res.1@ =~= seq![
                ScreenOp::Alloc { ylen, xlen, ypos, xpos },
                ScreenOp::Bkgd { attr: attr.color_attr },
            ],
    {
        let p = Panel { ylen, xlen, ypos, xpos };
        let mut ops: Vec<ScreenOp> = Vec::new();
        ops.push(ScreenOp::Alloc { ylen, xlen, ypos, xpos });
        ops.push(ScreenOp::Bkgd { attr: attr.get_color_attr() });
        (p, ops)
    }

    pub fn get_ylen(&self) -> (res: usize)
        ensures
            res == self.ylen,
    {
        self.ylen
    }

    pub fn get_xlen(&self) -> (res: usize)
        ensures
            res == self.xlen,
    {
        self.xlen
    }

    pub fn get_ypos(&self) -> (res: usize)
        ensures
            res == self.ypos,
    {
        self.ypos
    }

    pub fn get_xpos(&self) -> (res: usize)
        ensures
            res == self.xpos,
    {
        self.xpos
    }

    /// Record the new geometry.
    pub fn update_size(&mut self, ylen: usize, xlen: usize, ypos: usize, xpos: usize)
        ensures
            final(self).ylen == ylen && final(self).xlen == xlen && final(self).ypos == ypos
                && final(self).xpos == xpos,
    {
        self.ylen = ylen;
        self.xlen = xlen;
        self.ypos = ypos;
        self.xpos = xpos;
    }

    /// The panel draws no title of its own: its window's frame carries it.
    pub fn set_title(&mut self, _s: &[u8]) -> (ops: Vec<ScreenOp>)
        ensures
            *final(self) == *old(self),
            ops@ =~= Seq::<ScreenOp>::empty(),
    {
        Vec::new()
    }

    /// The panel shows no focus mark of its own.
    pub fn set_focus(&mut self, _t: bool, _standout_attr: u32) -> (ops: Vec<ScreenOp>)
        ensures
            *final(self) == *old(self),
            ops@ =~= Seq::<ScreenOp>::empty(),
    {
        Vec::new()
    }

    /// Flush the panel surface.
    pub fn refresh(&self) -> (op: ScreenOp)
        ensures
            op == ScreenOp::Refresh,
    {
        ScreenOp::Refresh
    }

    /// Erase the panel surface.
    pub fn erase(&self) -> (op: ScreenOp)
        ensures
            op == ScreenOp::Erase,
    {
        ScreenOp::Erase
    }

    /// Resize in place: reshape and move the surface to the new rectangle,
    /// record the new geometry, and flush.
    pub fn resize(&mut self, ylen: usize, xlen: usize, ypos: usize, xpos: usize, _attr: &Attr) -> (ops:
        Vec<ScreenOp>)
        ensures
            final(self).ylen == ylen && final(self).xlen == xlen && final(self).ypos == ypos
                && final(self).xpos == xpos,
            ops@ =~= seq![
                ScreenOp::Resize { ylen, xlen },
                ScreenOp::MoveTo { ypos, xpos },
                ScreenOp::Refresh,
            ],
    {
        let mut ops: Vec<ScreenOp> = Vec::new();
        ops.push(ScreenOp::Resize { ylen, xlen });
        ops.push(ScreenOp::MoveTo { ypos, xpos });
        self.update_size(ylen, xlen, ypos, xpos);
        ops.push(ScreenOp::Refresh);
        ops
    }
}

} // verus!
