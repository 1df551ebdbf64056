//! The bordered frame around one pane: geometry, title, and focus state.
//! Its methods mutate the state and emit the screen operations that redraw
//! the frame's surface.

use vstd::prelude::*;

use crate::screen::{Attr, ScreenOp};

verus! {

#[derive(Debug)]
pub struct Frame {
    pub ylen: usize,
    pub xlen: usize,
    pub ypos: usize,
    pub xpos: usize,
    pub title: Vec<u8>,
    pub focus: bool,
}

impl Frame {
    /// A fresh frame: allocate its surface, paint the background, draw the
    /// border.
    pub fn new(ylen: usize, xlen: usize, ypos: usize, xpos: usize, attr: &Attr) -> (res: (
        Frame,
        Vec<ScreenOp>,
    ))
        ensures
            res.0.ylen == ylen && res.0.xlen == xlen && res.0.ypos == ypos && res.0.xpos == xpos,
            res.0.title@ == Seq::<u8>::empty(),
            !res.0.focus,
            res.1@ =~= seq![
                ScreenOp::Alloc { ylen, xlen, ypos, xpos },
                ScreenOp::Bkgd { attr: attr.color_attr },
                ScreenOp::DrawBox,
            ],
    {
        let f = Frame { ylen, xlen, ypos, xpos, title: Vec::new(), focus: false };
        let mut ops: Vec<ScreenOp> = Vec::new();
        ops.push(ScreenOp::Alloc { ylen, xlen, ypos, xpos });
        ops.push(ScreenOp::Bkgd { attr: attr.get_color_attr() });
        ops.push(ScreenOp::DrawBox);
        (f, ops)
    }

    pub fn get_ylen(&self) -> (res: usize)
        ensures
            res == self.ylen,
    {
        self.ylen
    }

    pub fn get_xlen(&self) -> (res: usize)
        ensures
            res == self.xlen,
    {
        self.xlen
    }

    pub fn get_ypos(&self) -> (res: usize)
        ensures
            res == self.ypos,
    {
        self.ypos
    }

    pub fn get_xpos(&self) -> (res: usize)
        ensures
            res == self.xpos,
    {
        self.xpos
    }

    /// Record the new geometry.
    pub fn update_size(&mut self, ylen: usize, xlen: usize, ypos: usize, xpos: usize)
        ensures
            final(self).ylen == ylen && final(self).xlen == xlen && final(self).ypos == ypos
                && final(self).xpos == xpos,
            final(self).title@ == old(self).title@,
            final(self).focus == old(self).focus,
    {
        self.ylen = ylen;
        self.xlen = xlen;
        self.ypos = ypos;
        self.xpos = xpos;
    }

    /// Redraw the title in the border, highlighted while the frame has
    /// focus, and flush.
    pub fn print_title(&self, standout_attr: u32) -> (ops: Vec<ScreenOp>)
        ensures
            ops@.len() == 2,
            ops@[0] is Print,
            ops@[0]->Print_y == 0,
            ops@[0]->Print_x == 1,
            ops@[0]->Print_standout == self.focus,
            ops@[0]->Print_attr == standout_attr,
            ops@[0]->Print_text@ == self.title@,
            ops@[1] is Refresh,
    {
        let mut ops: Vec<ScreenOp> = Vec::new();
        ops.push(
            ScreenOp::Print {
                y: 0,
                x: 1,
                standout: self.focus,
                attr: standout_attr,
                text: crate::text::copy_bytes(&self.title),
            },
        );
        ops.push(ScreenOp::Refresh);
        ops
    }

    /// Set the title and draw it.
    pub fn set_title(&mut self, s: &[u8]) -> (ops: Vec<ScreenOp>)
        ensures
            final(self).title@ == s@,
            final(self).ylen == old(self).ylen && final(self).xlen == old(self).xlen,
            final(self).ypos == old(self).ypos && final(self).xpos == old(self).xpos,
            final(self).focus == old(self).focus,
            ops@.len() == 2,
            ops@[0] is Print,
            ops@[0]->Print_y == 0,
            ops@[0]->Print_x == 1,
            ops@[0]->Print_standout == final(self).focus,
            ops@[0]->Print_attr == 0,
            ops@[0]->Print_text@ == s@,
            ops@[1] is Refresh,
    {
        self.title = vstd::slice::slice_to_vec(s);
        self.print_title(0)
    }

    /// Set or drop the focus highlight and redraw the title.
    pub fn set_focus(&mut self, t: bool, standout_attr: u32) -> (ops: Vec<ScreenOp>)
        ensures
            final(self).focus == t,
            final(self).ylen == old(self).ylen && final(self).xlen == old(self).xlen,
            final(self).ypos == old(self).ypos && final(self).xpos == old(self).xpos,
            final(self).title@ == old(self).title@,
            ops@.len() == 2,
            ops@[0] is Print,
            ops@[0]->Print_y == 0,
            ops@[0]->Print_x == 1,
            ops@[0]->Print_standout == t,
            ops@[0]->Print_attr == standout_attr,
            ops@[0]->Print_text@ == old(self).title@,
            ops@[1] is Refresh,
    {
        self.focus = t;
        self.print_title(standout_attr)
    }

    /// Flush the frame surface.
    pub fn refresh(&self) -> (op: ScreenOp)
        ensures
            op == ScreenOp::Refresh,
    {
        ScreenOp::Refresh
    }

    /// Erase the frame surface.
    pub fn erase(&self) -> (op: ScreenOp)
        ensures
            op == ScreenOp::Erase,
    {
        ScreenOp::Erase
    }

    /// Resize in place: reshape and move the surface to the new rectangle,
    /// redraw the border, record the new geometry, and redraw the title.
    pub fn resize(&mut self, ylen: usize, xlen: usize, ypos: usize, xpos: usize, attr: &Attr) -> (ops:
        Vec<ScreenOp>)
        ensures
            final(self).ylen == ylen && final(self).xlen == xlen && final(self).ypos == ypos
                && final(self).xpos == xpos,
            final(self).title@ == old(self).title@,
            final(self).focus == old(self).focus,
            ops@.len() == 5,
            ops@[0] == (ScreenOp::Resize { ylen, xlen }),
            ops@[1] == (ScreenOp::MoveTo { ypos, xpos }),
            ops@[2] is DrawBox,
            ops@[3] is Print,
            ops@[3]->Print_y == 0,
            ops@[3]->Print_x == 1,
            ops@[3]->Print_standout == old(self).focus,
            ops@[3]->Print_attr == attr.standout_attr,
            ops@[3]->Print_text@ == old(self).title@,
            ops@[4] is Refresh,
    {
        let mut ops: Vec<ScreenOp> = Vec::new();
        ops.push(ScreenOp::Resize { ylen, xlen });
        ops.push(ScreenOp::MoveTo { ypos, xpos });
        ops.push(ScreenOp::DrawBox);
        self.update_size(ylen, xlen, ypos, xpos);
        let mut t = self.print_title(attr.get_standout_attr());
        ops.append(&mut t);
        ops
    }
}

} // verus!
