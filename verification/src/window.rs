//! One pane: a bordered frame, the inner panel, the attached line buffer,
//! and the scroll offset, with the repaint algorithm that turns the buffer's
//! lines into print operations.

use vstd::prelude::*;

use crate::buffer::{chunk_after, line_changed, rendered_line, Buffer};
use crate::frame::Frame;
use crate::panel::Panel;
use crate::screen::{Attr, Part, ScreenOp, WinCmd};
use crate::text::{clip_bytes, clip_spec, escape_pct, lines_of};
use crate::Error;

verus! {

/// One print of the repaint pass: the display row, the highlight flag, and
/// the text, before it is addressed to the panel surface.
pub struct PrintRec {
    pub y: int,
    pub standout: bool,
    pub text: Seq<u8>,
}

/// How many display rows a printed line consumes: one when clipping, the
/// folded row count when folding.  A zero-width panel consumes one row, as
/// nothing can wrap inside it.
pub open spec fn row_advance(foldline: bool, tlen: int, w: int) -> int {
    if !foldline || w <= 0 {
        1
    } else {
        tlen / w + if tlen % w != 0 {
            1int
        } else {
            0int
        }
    }
}

/// Add display rows, stopping at the largest representable row.
pub open spec fn sat_row(y: int, adv: int) -> int {
    if y + adv > usize::MAX as int {
        usize::MAX as int
    } else {
        y + adv
    }
}

/// The prints of one repaint pass from line `pos` at display row `y`:
/// every line is consumed in order; lines before the scroll offset are
/// skipped; each remaining line is printed — clipped to the panel width
/// unless folding — with the highlight that the pre-pass history gives it,
/// and advances the row by what it consumed.
pub open spec fn paint_ops(
    lines: Seq<Seq<u8>>,
    chunk0: Seq<Seq<u8>>,
    offset: int,
    w: int,
    showlnum: bool,
    foldline: bool,
    blinkline: bool,
    y: int,
    pos: int,
) -> Seq<PrintRec>
    decreases lines.len() - pos,
{
    if pos < 0 || pos >= lines.len() {
        Seq::empty()
    } else {
        let esc = escape_pct(lines[pos]);
        let t = rendered_line(lines[pos], pos + 1, showlnum);
        let changed = blinkline && line_changed(chunk0, pos, esc);
        if pos < offset {
            paint_ops(lines, chunk0, offset, w, showlnum, foldline, blinkline, y, pos + 1)
        } else {
            seq![
                (PrintRec {
                    y,
                    standout: changed,
                    text: if !foldline {
                        clip_spec(t, w)
                    } else {
                        t
                    },
                }),
            ] + paint_ops(
                lines,
                chunk0,
                offset,
                w,
                showlnum,
                foldline,
                blinkline,
                sat_row(y, row_advance(foldline, t.len() as int, w)),
                pos + 1,
            )
        }
    }
}

/// The history after a repaint pass over the first `k` lines.
pub open spec fn chunk_after_pass(chunk0: Seq<Seq<u8>>, lines: Seq<Seq<u8>>, k: int) -> Seq<
    Seq<u8>,
>
    decreases k,
{
    if k <= 0 {
        chunk0
    } else {
        chunk_after(chunk_after_pass(chunk0, lines, k - 1), k - 1, escape_pct(lines[k - 1]))
    }
}

/// A pass over the first `k` lines leaves the change verdict of every later
/// line as the pre-pass history gives it: each line's history slot is
/// written only when the pass reaches it.
pub proof fn lemma_chunk_pass_tail(
    chunk0: Seq<Seq<u8>>,
    lines: Seq<Seq<u8>>,
    k: int,
    p: int,
    e: Seq<u8>,
)
    requires
        0 <= k <= p,
        p < usize::MAX,
    ensures
        line_changed(chunk_after_pass(chunk0, lines, k), p, e) == line_changed(chunk0, p, e),
    decreases k,
{
    if k > 0 {
        lemma_chunk_pass_tail(chunk0, lines, k - 1, p, e);
        let cp = chunk_after_pass(chunk0, lines, k - 1);
        let grown = crate::buffer::grown_chunk(cp, k - 1);
        if k - 1 >= cp.len() {
            crate::buffer::lemma_grow_target_covers(cp.len(), (k - 1) as nat);
        }
        assert(k - 1 < grown.len());
        let x = chunk_after(cp, k - 1, escape_pct(lines[k - 1]));
        assert(x.len() == grown.len());
        if p < x.len() {
            assert(x[p] == grown[p]);
        }
        if k - 1 >= cp.len() {
            assert(p >= cp.len());
            if p < grown.len() {
                assert(grown[p] =~= Seq::<u8>::empty());
            }
        }
    }
}

/// Address a run of surface operations to one part of the window,
/// appending them to the command list.
fn wrap_ops(part: Part, ops: Vec<ScreenOp>, dst: &mut Vec<WinCmd>)
    ensures
        final(dst)@.len() == old(dst)@.len() + ops@.len(),
        forall|i: int| 0 <= i < old(dst)@.len() ==> final(dst)@[i] == old(dst)@[i],
        forall|i: int|
            old(dst)@.len() <= i < final(dst)@.len() ==> {
                &&& (#[trigger] final(dst)@[i]).part == part
                &&& final(dst)@[i].op == ops@[i - old(dst)@.len()]
            },
{
    let mut rest = ops;
    let ghost orig = rest@;
    let ghost base = dst@.len();
    proof {
        assert(rest@ =~= orig.skip(0));
    }
    while rest.len() > 0
        invariant
            base <= dst@.len(),
            dst@.len() - base + rest@.len() == orig.len(),
            rest@ == orig.skip(dst@.len() - base),
            forall|i: int| 0 <= i < base ==> dst@[i] == old(dst)@[i],
            forall|i: int|
                base <= i < dst@.len() ==> (#[trigger] dst@[i]).part == part && dst@[i].op
                    == orig[i - base],
        decreases rest@.len(),
    {
        let ghost consumed = dst@.len() - base;
        let op = rest.remove(0);
        proof {
            assert(orig.skip(consumed).remove(0) =~= orig.skip(consumed + 1));
            assert(op == orig[consumed]);
        }
        dst.push(WinCmd { part, op });
    }
}

/// One pane of the dashboard.
#[derive(Debug)]
pub struct Window {
    pub frame: Frame,
    pub panel: Panel,
    pub buffer: Buffer,
    pub offset: usize,
}

/// The scroll offset after a scroll by `d`: the sum, saturated into the
/// valid range.
pub open spec fn clamp_offset(off: int, d: int, max: int) -> int {
    if off + d < 0 {
        0
    } else if off + d > max {
        max
    } else {
        off + d
    }
}

/// Scroll clamp: wherever the offset stands, a scroll by any amount lands
/// inside `[0, max]`; a scroll that stays inside the range moves by exactly
/// its amount.
pub proof fn lemma_scroll_clamp(off: int, d: int, max: int)
    requires
        0 <= max,
    ensures
        0 <= clamp_offset(off, d, max) <= max,
        0 <= off + d <= max ==> clamp_offset(off, d, max) == off + d,
{
}

impl Window {
    pub open spec fn wf(self) -> bool {
        self.buffer.wf()
    }

    /// A fresh window on the given rectangle: a frame around an inner panel
    /// inset by the one-cell border, with a dead buffer and the offset at
    /// the top.  Rejects a rectangle too small to carry its border, or one
    /// whose origin leaves no room for it: a reported configuration error,
    /// never a panic.
    pub fn new(ylen: usize, xlen: usize, ypos: usize, xpos: usize, attr: &Attr) -> (res: Result<
        (Window, Vec<WinCmd>),
        Error,
    >)
        ensures
            (ylen >= 2 && xlen >= 2 && ypos <= usize::MAX - 1 && xpos <= usize::MAX - 1) <==> res
                is Ok,
            res is Err ==> res->Err_0 == Error::BadLayout,
            res is Ok ==> {
                let w = res->Ok_0.0;
                let cmds = res->Ok_0.1;
                &&& w.wf()
                &&& w.frame.ylen == ylen && w.frame.xlen == xlen && w.frame.ypos == ypos
                    && w.frame.xpos == xpos
                &&& w.panel.ylen == ylen - 2 && w.panel.xlen == xlen - 2 && w.panel.ypos == ypos
                    + 1 && w.panel.xpos == xpos + 1
                &&& w.frame.title@ == Seq::<u8>::empty()
                &&& !w.frame.focus
                &&& !w.buffer.alive
                &&& w.buffer.curline == 0 && w.buffer.maxline == 0
                &&& w.buffer.chunk_view() == Seq::<Seq<u8>>::empty()
                &&& w.offset == 0
                &&& cmds@.len() == 7
                &&& cmds@[0].part == Part::Frame && cmds@[0].op == (ScreenOp::Alloc {
                    ylen,
                    xlen,
                    ypos,
                    xpos,
                })
                &&& cmds@[1].part == Part::Frame && cmds@[1].op == (ScreenOp::Bkgd {
                    attr: attr.color_attr,
                })
                &&& cmds@[2].part == Part::Frame && cmds@[2].op == ScreenOp::DrawBox
                &&& cmds@[3].part == Part::Panel && cmds@[3].op == (ScreenOp::Alloc {
                    ylen: (ylen - 2) as usize,
                    xlen: (xlen - 2) as usize,
                    ypos: (ypos + 1) as usize,
                    xpos: (xpos + 1) as usize,
                })
                &&& cmds@[4].part == Part::Panel && cmds@[4].op == (ScreenOp::Bkgd {
                    attr: attr.color_attr,
                })
                &&& cmds@[5].part == Part::Frame && cmds@[5].op == ScreenOp::Refresh
                &&& cmds@[6].part == Part::Panel && cmds@[6].op == ScreenOp::Refresh
            },
    {
        if ylen < 2 || xlen < 2 || ypos > usize::MAX - 1 || xpos > usize::MAX - 1 {
            return Err(Error::BadLayout);
        }
        let (frame, fops) = Frame::new(ylen, xlen, ypos, xpos, attr);
        let (panel, pops) = Panel::new(ylen - 2, xlen - 2, ypos + 1, xpos + 1, attr);
        let mut cmds: Vec<WinCmd> = Vec::new();
        wrap_ops(Part::Frame, fops, &mut cmds);
        wrap_ops(Part::Panel, pops, &mut cmds);
        let w = Window { frame, panel, buffer: Buffer::new(), offset: 0 };
        cmds.push(WinCmd { part: Part::Frame, op: w.frame.refresh() });
        cmds.push(WinCmd { part: Part::Panel, op: w.panel.refresh() });
        Ok((w, cmds))
    }

    /// A window with no file attached is dead.
    pub fn is_dead(&self) -> (res: bool)
        ensures
            res == !self.buffer.alive,
    {
        self.buffer.is_dead()
    }

    /// Resize both surfaces in place and reset the scroll offset to the
    /// top.  Rejects a rectangle too small to carry its border.
    pub fn resize(&mut self, ylen: usize, xlen: usize, ypos: usize, xpos: usize, attr: &Attr) -> (res:
        Result<Vec<WinCmd>, Error>)
        requires
            old(self).wf(),
        ensures
            final(self).wf(),
            (ylen >= 2 && xlen >= 2 && ypos <= usize::MAX - 1 && xpos <= usize::MAX - 1) <==> res
                is Ok,
            res is Err ==> res->Err_0 == Error::BadLayout && *final(self) == *old(self),
            res is Ok ==> {
                let cmds = res->Ok_0;
                &&& final(self).frame.ylen == ylen && final(self).frame.xlen == xlen
                &&& final(self).frame.ypos == ypos && final(self).frame.xpos == xpos
                &&& final(self).frame.title@ == old(self).frame.title@
                &&& final(self).frame.focus == old(self).frame.focus
                &&& final(self).panel.ylen == ylen - 2 && final(self).panel.xlen == xlen - 2
                &&& final(self).panel.ypos == ypos + 1 && final(self).panel.xpos == xpos + 1
                &&& final(self).buffer == old(self).buffer
                &&& final(self).offset == 0
                &&& cmds@.len() == 8
                &&& cmds@[0].part == Part::Frame && cmds@[0].op == (ScreenOp::Resize {
                    ylen,
                    xlen,
                })
                &&& cmds@[1].part == Part::Frame && cmds@[1].op == (ScreenOp::MoveTo {
                    ypos,
                    xpos,
                })
                &&& cmds@[2].part == Part::Frame && cmds@[2].op == ScreenOp::DrawBox
                &&& cmds@[3].part == Part::Frame && cmds@[3].op is Print
                &&& cmds@[3].op->Print_y == 0 && cmds@[3].op->Print_x == 1
                &&& cmds@[3].op->Print_standout == old(self).frame.focus
                &&& cmds@[3].op->Print_attr == attr.standout_attr
                &&& cmds@[3].op->Print_text@ == old(self).frame.title@
                &&& cmds@[4].part == Part::Frame && cmds@[4].op == ScreenOp::Refresh
                &&& cmds@[5].part == Part::Panel && cmds@[5].op == (ScreenOp::Resize {
                    ylen: (ylen - 2) as usize,
                    xlen: (xlen - 2) as usize,
                })
                &&& cmds@[6].part == Part::Panel && cmds@[6].op == (ScreenOp::MoveTo {
                    ypos: (ypos + 1) as usize,
                    xpos: (xpos + 1) as usize,
                })
                &&& cmds@[7].part == Part::Panel && cmds@[7].op == ScreenOp::Refresh
            },
    {
        if ylen < 2 || xlen < 2 || ypos > usize::MAX - 1 || xpos > usize::MAX - 1 {
            return Err(Error::BadLayout);
        }
        let mut cmds: Vec<WinCmd> = Vec::new();
        let fops = self.frame.resize(ylen, xlen, ypos, xpos, attr);
        wrap_ops(Part::Frame, fops, &mut cmds);
        let pops = self.panel.resize(ylen - 2, xlen - 2, ypos + 1, xpos + 1, attr);
        wrap_ops(Part::Panel, pops, &mut cmds);
        self.offset = 0;
        Ok(cmds)
    }

    /// Attach a file to the window: hand its content to the buffer and
    /// title both surfaces with its path.  Fails if and only if a file is
    /// already attached.
    pub fn attach_buffer(&mut self, path: &[u8], content: &[u8]) -> (res: Result<
        Vec<WinCmd>,
        Error,
    >)
        requires
            old(self).wf(),
        ensures
            final(self).wf(),
            old(self).buffer.alive ==> res == Result::<Vec<WinCmd>, Error>::Err(
                Error::AlreadyAttached,
            ) && *final(self) == *old(self),
            !old(self).buffer.alive ==> {
                let cmds = res->Ok_0;
                &&& res is Ok
                &&& final(self).buffer.alive
                &&& final(self).buffer.lines_view() == lines_of(content@)
                &&& final(self).buffer.maxline == lines_of(content@).len()
                &&& final(self).buffer.curline == 0
                &&& final(self).buffer.chunk@ == old(self).buffer.chunk@
                &&& final(self).frame.title@ == path@
                &&& final(self).frame.focus == old(self).frame.focus
                &&& final(self).frame.ylen == old(self).frame.ylen
                &&& final(self).frame.xlen == old(self).frame.xlen
                &&& final(self).frame.ypos == old(self).frame.ypos
                &&& final(self).frame.xpos == old(self).frame.xpos
                &&& final(self).panel == old(self).panel
                &&& final(self).offset == old(self).offset
                &&& cmds@.len() == 2
                &&& cmds@[0].part == Part::Frame && cmds@[0].op is Print
                &&& cmds@[0].op->Print_y == 0 && cmds@[0].op->Print_x == 1
                &&& cmds@[0].op->Print_standout == old(self).frame.focus
                &&& cmds@[0].op->Print_attr == 0
                &&& cmds@[0].op->Print_text@ == path@
                &&& cmds@[1].part == Part::Frame && cmds@[1].op == ScreenOp::Refresh
            },
    {
        match self.buffer.init(content) {
            Ok(_) => {},
            Err(e) => {
                return Err(e);
            },
        }
        let mut cmds: Vec<WinCmd> = Vec::new();
        let fops = self.frame.set_title(path);
        wrap_ops(Part::Frame, fops, &mut cmds);
        let pops = self.panel.set_title(path);
        wrap_ops(Part::Panel, pops, &mut cmds);
        Ok(cmds)
    }

    /// Re-scan the attached file with its current content.  A dead window
    /// ignores the call.
    pub fn update_buffer(&mut self, content: &[u8])
        requires
            old(self).wf(),
        ensures
            final(self).wf(),
            !old(self).buffer.alive ==> *final(self) == *old(self),
            old(self).buffer.alive ==> {
                &&& final(self).buffer.alive
                &&& final(self).buffer.lines_view() == lines_of(content@)
                &&& final(self).buffer.maxline == lines_of(content@).len()
                &&& final(self).buffer.curline == old(self).buffer.curline
                &&& final(self).buffer.chunk@ == old(self).buffer.chunk@
                &&& final(self).frame == old(self).frame
                &&& final(self).panel == old(self).panel
                &&& final(self).offset == old(self).offset
            },
    {
        self.buffer.update(content);
    }

    /// Give or take the focus highlight.
    pub fn focus(&mut self, t: bool, standout_attr: u32) -> (cmds: Vec<WinCmd>)
        requires
            old(self).wf(),
        ensures
            final(self).wf(),
            final(self).frame.focus == t,
            final(self).frame.title@ == old(self).frame.title@,
            final(self).frame.ylen == old(self).frame.ylen && final(self).frame.xlen == old(
                self,
            ).frame.xlen,
            final(self).frame.ypos == old(self).frame.ypos && final(self).frame.xpos == old(
                self,
            ).frame.xpos,
            final(self).panel == old(self).panel,
            final(self).buffer == old(self).buffer,
            final(self).offset == old(self).offset,
            cmds@.len() == 2,
            cmds@[0].part == Part::Frame && cmds@[0].op is Print,
            cmds@[0].op->Print_y == 0 && cmds@[0].op->Print_x == 1,
            cmds@[0].op->Print_standout == t,
            cmds@[0].op->Print_attr == standout_attr,
            cmds@[0].op->Print_text@ == old(self).frame.title@,
            cmds@[1].part == Part::Frame && cmds@[1].op == ScreenOp::Refresh,
    {
        let mut cmds: Vec<WinCmd> = Vec::new();
        let fops = self.frame.set_focus(t, standout_attr);
        wrap_ops(Part::Frame, fops, &mut cmds);
        let pops = self.panel.set_focus(t, standout_attr);
        wrap_ops(Part::Panel, pops, &mut cmds);
        cmds
    }

    /// Scroll to the first line.
    pub fn goto_head(&mut self)
        ensures
            final(self).offset == 0,
            final(self).frame == old(self).frame,
            final(self).panel == old(self).panel,
            final(self).buffer == old(self).buffer,
    {
        self.offset = 0;
    }

    /// Scroll past the last line.
    pub fn goto_tail(&mut self)
        ensures
            final(self).offset == old(self).buffer.maxline,
            final(self).frame == old(self).frame,
            final(self).panel == old(self).panel,
            final(self).buffer == old(self).buffer,
    {
        self.offset = self.buffer.get_max_line();
    }

    /// Scroll by a signed number of lines, saturating into the valid range
    /// `[0, line count]`.  An offset left beyond the line count by a
    /// shrinking re-scan is clamped back in.
    pub fn goto_current(&mut self, d: isize)
        ensures
            final(self).offset == clamp_offset(
                old(self).offset as int,
                d as int,
                old(self).buffer.maxline as int,
            ),
            0 <= final(self).offset <= old(self).buffer.maxline,
            final(self).frame == old(self).frame,
            final(self).panel == old(self).panel,
            final(self).buffer == old(self).buffer,
    {
        let max = self.buffer.get_max_line();
        let t = match self.offset.checked_add_signed(d) {
            Some(v) => v,
            None => {
                if d < 0 {
                    0
                } else {
                    usize::MAX
                }
            },
        };
        self.offset = if t > max {
            max
        } else {
            t
        };
    }

    /// Repaint the pane: erase it, print every line from the scroll offset
    /// on — clipped or folded to the panel width, numbered and highlighted
    /// as asked — then flush and rewind the buffer for the next pass.  A
    /// dead window paints nothing.
    pub fn repaint(&mut self, showlnum: bool, foldline: bool, blinkline: bool, standout_attr: u32) -> (res:
        Result<Vec<WinCmd>, Error>)
        requires
            old(self).wf(),
        ensures
            final(self).wf(),
            res is Ok,
            !old(self).buffer.alive ==> res->Ok_0@.len() == 0 && *final(self) == *old(self),
            old(self).buffer.alive ==> {
                let cmds = res->Ok_0;
                let prints = paint_ops(
                    old(self).buffer.lines_view(),
                    old(self).buffer.chunk_view(),
                    old(self).offset as int,
                    old(self).panel.xlen as int,
                    showlnum,
                    foldline,
                    blinkline,
                    0,
                    0,
                );
                &&& cmds@.len() == prints.len() + 2
                &&& cmds@[0].part == Part::Panel && cmds@[0].op == ScreenOp::Erase
                &&& cmds@[cmds@.len() - 1].part == Part::Panel && cmds@[cmds@.len() - 1].op
                    == ScreenOp::Refresh
                &&& forall|i: int|
                    0 <= i < prints.len() ==> {
                        &&& (#[trigger] cmds@[i + 1]).part == Part::Panel
                        &&& cmds@[i + 1].op is Print
                        &&& cmds@[i + 1].op->Print_y == prints[i].y
                        &&& cmds@[i + 1].op->Print_x == 0
                        &&& cmds@[i + 1].op->Print_standout == prints[i].standout
                        &&& cmds@[i + 1].op->Print_attr == standout_attr
                        &&& cmds@[i + 1].op->Print_text@ == prints[i].text
                    }
                &&& final(self).buffer.alive
                &&& final(self).buffer.lines@ == old(self).buffer.lines@
                &&& final(self).buffer.maxline == old(self).buffer.maxline
                &&& final(self).buffer.curline == 0
                &&& blinkline ==> final(self).buffer.chunk_view() == chunk_after_pass(
                    old(self).buffer.chunk_view(),
                    old(self).buffer.lines_view(),
                    old(self).buffer.maxline as int,
                )
                &&& !blinkline ==> final(self).buffer.chunk@ == old(self).buffer.chunk@
                &&& final(self).frame == old(self).frame
                &&& final(self).panel == old(self).panel
                &&& final(self).offset == old(self).offset
            },
    {
        if self.is_dead() {
            return Ok(Vec::new());
        }
        let offset = self.offset;
        let xlen = self.panel.get_xlen();
        let ghost lines0 = self.buffer.lines_view();
        let ghost chunk0 = self.buffer.chunk_view();
        let ghost full = paint_ops(
            lines0,
            chunk0,
            offset as int,
            xlen as int,
            showlnum,
            foldline,
            blinkline,
            0,
            0,
        );

        let mut cmds: Vec<WinCmd> = Vec::new();
        cmds.push(WinCmd { part: Part::Panel, op: self.panel.erase() });
        // rewind to the start before reading forward
        match self.buffer.clear() {
            Ok(_) => {},
            Err(_) => {},
        }
        let mut y: usize = 0;

        loop
            invariant
                self.buffer.wf(),
                self.buffer.alive,
                self.buffer.lines@ == old(self).buffer.lines@,
                self.buffer.maxline == old(self).buffer.maxline,
                self.buffer.curline <= self.buffer.maxline,
                lines0 == self.buffer.lines_view(),
                blinkline ==> self.buffer.chunk_view() == chunk_after_pass(
                    chunk0,
                    lines0,
                    self.buffer.curline as int,
                ),
                !blinkline ==> self.buffer.chunk@ == old(self).buffer.chunk@,
                self.frame == old(self).frame,
                self.panel == old(self).panel,
                self.offset == old(self).offset,
                cmds@.len() >= 1,
                cmds@[0].part == Part::Panel && cmds@[0].op == ScreenOp::Erase,
                cmds@.len() - 1 + paint_ops(
                    lines0,
                    chunk0,
                    offset as int,
                    xlen as int,
                    showlnum,
                    foldline,
                    blinkline,
                    y as int,
                    self.buffer.curline as int,
                ).len() == full.len(),
                forall|i: int|
                    0 <= i < cmds@.len() - 1 ==> {
                        &&& (#[trigger] cmds@[i + 1]).part == Part::Panel
                        &&& cmds@[i + 1].op is Print
                        &&& cmds@[i + 1].op->Print_y == full[i].y
                        &&& cmds@[i + 1].op->Print_x == 0
                        &&& cmds@[i + 1].op->Print_standout == full[i].standout
                        &&& cmds@[i + 1].op->Print_attr == standout_attr
                        &&& cmds@[i + 1].op->Print_text@ == full[i].text
                    },
                forall|i: int|
                    cmds@.len() - 1 <= i < full.len() ==> #[trigger] full[i] == paint_ops(
                        lines0,
                        chunk0,
                        offset as int,
                        xlen as int,
                        showlnum,
                        foldline,
                        blinkline,
                        y as int,
                        self.buffer.curline as int,
                    )[i - (cmds@.len() - 1)],
            ensures
                self.buffer.curline == self.buffer.maxline,
                cmds@.len() - 1 == full.len(),
            decreases self.buffer.maxline - self.buffer.curline,
        {
            let ghost k = self.buffer.curline as int;
            let ghost ycur = y as int;
            let ghost suffix = paint_ops(
                lines0,
                chunk0,
                offset as int,
                xlen as int,
                showlnum,
                foldline,
                blinkline,
                ycur,
                k,
            );
            let rl = match self.buffer.readline(showlnum, blinkline) {
                Ok(rl) => rl,
                Err(_) => {
                    proof {
                        assert(suffix =~= Seq::<PrintRec>::empty());
                    }
                    break ;
                },
            };
            proof {
                if blinkline {
                    lemma_chunk_pass_tail(chunk0, lines0, k, k, escape_pct(lines0[k]));
                }
            }
            let ghost t = rendered_line(lines0[k], k + 1, showlnum);
            let ghost suffix_next = paint_ops(
                lines0,
                chunk0,
                offset as int,
                xlen as int,
                showlnum,
                foldline,
                blinkline,
                if k < offset {
                    ycur
                } else {
                    sat_row(ycur, row_advance(foldline, t.len() as int, xlen as int))
                },
                k + 1,
            );
            if rl.pos >= offset {
                proof {
                    assert(suffix == seq![
                        (PrintRec {
                            y: ycur,
                            standout: rl.changed,
                            text: if !foldline {
                                clip_spec(t, xlen as int)
                            } else {
                                t
                            },
                        }),
                    ] + suffix_next);
                }
                let tlen = rl.text.len();
                let txt: Vec<u8> = if !foldline {
                    clip_bytes(&rl.text, xlen)
                } else {
                    rl.text
                };
                let ghost before = cmds@;
                cmds.push(
                    WinCmd {
                        part: Part::Panel,
                        op: ScreenOp::Print {
                            y,
                            x: 0,
                            standout: rl.changed,
                            attr: standout_attr,
                            text: txt,
                        },
                    },
                );
                let adv: usize = if !foldline || xlen == 0 {
                    1
                } else {
                    proof {
                        if tlen % xlen != 0 {
                            // a remainder means the width is at least two,
                            // so the quotient leaves room for the extra row
                            assert(xlen >= 2) by (nonlinear_arith)
                                requires
                                    xlen >= 1,
                                    tlen % xlen != 0,
                            ;
                            vstd::arithmetic::div_mod::lemma_div_is_ordered_by_denominator(
                                tlen as int,
                                2,
                                xlen as int,
                            );
                            vstd::arithmetic::div_mod::lemma_div_is_ordered(
                                tlen as int,
                                usize::MAX as int,
                                2,
                            );
                        }
                    }
                    tlen / xlen + if tlen % xlen != 0 {
                        1
                    } else {
                        0
                    }
                };
                y = y.saturating_add(adv);
            }
        }
        cmds.push(WinCmd { part: Part::Panel, op: self.panel.refresh() });
        match self.buffer.clear() {
            Ok(_) => {},
            Err(_) => {},
        }
        Ok(cmds)
    }
}

} // verus!
