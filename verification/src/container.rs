//! The pane registry: the ordered windows, the live subset with a file
//! attached, the focused pane, the watch-handle map, and the interrupted
//! flag, with the keyboard dispatch that drives them.
//!
//! The registry never blocks and never draws: threads, locks and the
//! terminal live outside.  Its methods mutate the registry and hand back
//! the draw commands and the wake-up decision for the shell to carry out.

use vstd::prelude::*;

use crate::layout::{grid_of, Rect};
use crate::screen::{Attr, DrawCmd, Key, TermOp, WinCmd};
use crate::text::lines_of;
use crate::window::{clamp_offset, Window};
use crate::{Error, Opt};

verus! {

/// One file named on the command line: its path and, when it could be read
/// as a regular file, its content.  A file with no content leaves its pane
/// dead.
pub struct FileEntry {
    pub path: Vec<u8>,
    pub content: Option<Vec<u8>>,
}

/// What one keyboard event asks the shell to do: draw these commands, run
/// these terminal operations, and wake the repaint tasks when asked.
pub struct EventOutcome {
    pub cmds: Vec<DrawCmd>,
    pub term: Vec<TermOp>,
    pub notify: bool,
}

/// The position of `ci` in the live list, or -1 when it is not live.
pub open spec fn find_pos(biv: Seq<usize>, ci: usize) -> int
    decreases biv.len(),
{
    if biv.len() == 0 {
        -1
    } else if biv[0] == ci {
        0
    } else {
        let r = find_pos(biv.drop_first(), ci);
        if r < 0 {
            -1
        } else {
            r + 1
        }
    }
}

pub proof fn lemma_find_pos_range(biv: Seq<usize>, ci: usize)
    ensures
        -1 <= find_pos(biv, ci) < biv.len(),
        find_pos(biv, ci) >= 0 ==> biv[find_pos(biv, ci)] == ci,
    decreases biv.len(),
{
    if biv.len() > 0 && biv[0] != ci {
        lemma_find_pos_range(biv.drop_first(), ci);
    }
}

/// Where the first occurrence is known, `find_pos` finds it.
pub proof fn lemma_find_pos_at(biv: Seq<usize>, ci: usize, m: int)
    requires
        0 <= m < biv.len(),
        biv[m] == ci,
        forall|k: int| 0 <= k < m ==> biv[k] != ci,
    ensures
        find_pos(biv, ci) == m,
    decreases biv.len(),
{
    if m > 0 {
        lemma_find_pos_at(biv.drop_first(), ci, m - 1);
    }
}

pub proof fn lemma_find_pos_none(biv: Seq<usize>, ci: usize)
    requires
        forall|k: int| 0 <= k < biv.len() ==> biv[k] != ci,
    ensures
        find_pos(biv, ci) == -1,
    decreases biv.len(),
{
    if biv.len() > 0 {
        lemma_find_pos_none(biv.drop_first(), ci);
    }
}

/// In a strictly increasing live list, the element at `j` is found at `j`.
pub proof fn lemma_find_pos_of_elem(biv: Seq<usize>, j: int)
    requires
        0 <= j < biv.len(),
        forall|k1: int, k2: int| 0 <= k1 < k2 < biv.len() ==> biv[k1] < biv[k2],
    ensures
        find_pos(biv, biv[j]) == j,
{
    assert forall|k: int| 0 <= k < j implies biv[k] != biv[j] by {
        assert(biv[k] < biv[j]);
    }
    lemma_find_pos_at(biv, biv[j], j);
}

/// The next live position, cyclically.
pub open spec fn next_pos(len: int, p: int) -> int {
    (p + 1) % len
}

/// The previous live position, cyclically.
pub open spec fn prev_pos(len: int, p: int) -> int {
    if p == 0 {
        len - 1
    } else {
        p - 1
    }
}

/// The live position after `k` forward steps.
pub open spec fn iter_next(len: int, p: int, k: nat) -> int
    decreases k,
{
    if k == 0 {
        p
    } else {
        next_pos(len, iter_next(len, p, (k - 1) as nat))
    }
}

proof fn lemma_iter_next_mod(len: int, p: int, k: nat)
    requires
        0 <= p < len,
    ensures
        iter_next(len, p, k) == (p + k) % len,
    decreases k,
{
    if k == 0 {
        assert(p % len == p) by (nonlinear_arith)
            requires
                0 <= p < len,
        ;
    } else {
        lemma_iter_next_mod(len, p, (k - 1) as nat);
        assert(((p + (k - 1)) % len + 1) % len == (p + k) % len) by (nonlinear_arith)
            requires
                0 < len,
                0 <= p,
                1 <= k,
        ;
    }
}

/// Focus cycle: with `N` live panes, stepping the focus forward `N` times
/// returns it to where it began.
pub proof fn lemma_focus_cycle(len: int, p: int)
    requires
        0 <= p < len,
    ensures
        iter_next(len, p, len as nat) == p,
{
    lemma_iter_next_mod(len, p, len as nat);
    assert((p + len) % len == p) by (nonlinear_arith)
        requires
            0 <= p < len,
    ;
}

/// Focus cycle: stepping the focus back right after stepping it forward
/// lands on the pane it began on.
pub proof fn lemma_prev_next_cancel(len: int, p: int)
    requires
        0 <= p < len,
    ensures
        prev_pos(len, next_pos(len, p)) == p,
{
    if p + 1 < len {
        assert((p + 1) % len == p + 1) by (nonlinear_arith)
            requires
                0 <= p + 1 < len,
        ;
    } else {
        assert((p + 1) % len == 0) by (nonlinear_arith)
            requires
                p + 1 == len,
                0 < len,
        ;
    }
}

/// The live indices among the first `j` files: those with content that
/// landed on an existing pane.
pub open spec fn live_upto(files: Seq<FileEntry>, n: int, j: int) -> Seq<usize>
    decreases j,
{
    if j <= 0 {
        Seq::empty()
    } else {
        let p = live_upto(files, n, j - 1);
        if files[j - 1].content is Some && j - 1 < n {
            p.push((j - 1) as usize)
        } else {
            p
        }
    }
}

proof fn lemma_live_upto_sorted(files: Seq<FileEntry>, n: int, j: int)
    requires
        0 <= j <= usize::MAX,
        n <= usize::MAX,
    ensures
        forall|a: int| 0 <= a < live_upto(files, n, j).len() ==> #[trigger] live_upto(
            files,
            n,
            j,
        )[a] < j && live_upto(files, n, j)[a] < n,
        forall|a: int, b: int|
            0 <= a < b < live_upto(files, n, j).len() ==> live_upto(files, n, j)[a] < live_upto(
                files,
                n,
                j,
            )[b],
    decreases j,
{
    if j > 0 {
        lemma_live_upto_sorted(files, n, j - 1);
        let p = live_upto(files, n, j - 1);
        let cur = live_upto(files, n, j);
        assert forall|a: int| 0 <= a < cur.len() implies #[trigger] cur[a] < j && cur[a] < n by {
            if a < p.len() {
                assert(cur[a] == p[a]);
                assert(p[a] < j - 1 && p[a] < n);
            }
        }
        assert forall|a: int, b: int| 0 <= a < b < cur.len() implies cur[a] < cur[b] by {
            if b < p.len() {
                assert(cur[a] == p[a] && cur[b] == p[b]);
            } else {
                assert(cur[a] == p[a]);
                assert(p[a] < j - 1);
            }
        }
    }
}

/// Address a run of window commands to one pane of the registry.
fn wrap_draw(pane: usize, cmds: Vec<WinCmd>, dst: &mut Vec<DrawCmd>)
    ensures
        final(dst)@.len() == old(dst)@.len() + cmds@.len(),
        forall|i: int| 0 <= i < old(dst)@.len() ==> final(dst)@[i] == old(dst)@[i],
        forall|i: int|
            old(dst)@.len() <= i < final(dst)@.len() ==> {
                &&& (#[trigger] final(dst)@[i]).pane == pane
                &&& final(dst)@[i].part == cmds@[i - old(dst)@.len()].part
                &&& final(dst)@[i].op == cmds@[i - old(dst)@.len()].op
            },
{
    let mut rest = cmds;
    let ghost orig = rest@;
    let ghost base = dst@.len();
    proof {
        assert(rest@ =~= orig.skip(0));
    }
    while rest.len() > 0
        invariant
            base <= dst@.len(),
            dst@.len() - base + rest@.len() == orig.len(),
            rest@ == orig.skip(dst@.len() - base),
            forall|i: int| 0 <= i < base ==> dst@[i] == old(dst)@[i],
            forall|i: int|
                base <= i < dst@.len() ==> (#[trigger] dst@[i]).pane == pane && dst@[i].part
                    == orig[i - base].part && dst@[i].op == orig[i - base].op,
        decreases rest@.len(),
    {
        let ghost consumed = dst@.len() - base;
        let c = rest.remove(0);
        proof {
            assert(orig.skip(consumed).remove(0) =~= orig.skip(consumed + 1));
            assert(c == orig[consumed]);
        }
        dst.push(DrawCmd { pane, part: c.part, op: c.op });
    }
}

/// Everything of the registry but the pane windows stands as it was.
pub open spec fn untouched_but_panes(pre: Container, post: Container) -> bool {
    &&& post.biv@ == pre.biv@
    &&& post.wih@ == pre.wih@
    &&& post.ci == pre.ci
    &&& post.attr == pre.attr
    &&& post.interrupted == pre.interrupted
}

/// Nothing of the registry moved.
pub open spec fn unchanged_sem(pre: Container, post: Container) -> bool {
    &&& post.v@ == pre.v@
    &&& post.biv@ == pre.biv@
    &&& post.wih@ == pre.wih@
    &&& post.ci == pre.ci
    &&& post.attr == pre.attr
    &&& post.interrupted == pre.interrupted
}


/// Where pane `k`'s commands start in a grid build: each kept pane is
/// resized with eight commands, each fresh pane brought up with seven.
pub open spec fn seg_start(pre_len: int, m: int, k: int) -> int {
    let o = vstd::math::min(pre_len, m);
    if k <= o {
        k * 8
    } else {
        o * 8 + (k - o) * 7
    }
}

/// The commands that resize one window in place: reshape, move and re-box
/// the frame to its new rectangle, redraw its title, then reshape and move
/// the panel to its new inner rectangle.
pub open spec fn resize_cmds(oldw: Window, neww: Window, attr: Attr, cmds: Seq<DrawCmd>) -> bool {
    &&& cmds.len() == 8
    &&& cmds[0].part == crate::screen::Part::Frame && cmds[0].op
        == (crate::screen::ScreenOp::Resize { ylen: neww.frame.ylen, xlen: neww.frame.xlen })
    &&& cmds[1].part == crate::screen::Part::Frame && cmds[1].op
        == (crate::screen::ScreenOp::MoveTo { ypos: neww.frame.ypos, xpos: neww.frame.xpos })
    &&& cmds[2].part == crate::screen::Part::Frame && cmds[2].op
        == crate::screen::ScreenOp::DrawBox
    &&& cmds[3].part == crate::screen::Part::Frame && cmds[3].op is Print
    &&& cmds[3].op->Print_y == 0 && cmds[3].op->Print_x == 1
    &&& cmds[3].op->Print_standout == oldw.frame.focus
    &&& cmds[3].op->Print_attr == attr.standout_attr
    &&& cmds[3].op->Print_text@ == oldw.frame.title@
    &&& cmds[4].part == crate::screen::Part::Frame && cmds[4].op
        == crate::screen::ScreenOp::Refresh
    &&& cmds[5].part == crate::screen::Part::Panel && cmds[5].op
        == (crate::screen::ScreenOp::Resize { ylen: neww.panel.ylen, xlen: neww.panel.xlen })
    &&& cmds[6].part == crate::screen::Part::Panel && cmds[6].op
        == (crate::screen::ScreenOp::MoveTo { ypos: neww.panel.ypos, xpos: neww.panel.xpos })
    &&& cmds[7].part == crate::screen::Part::Panel && cmds[7].op
        == crate::screen::ScreenOp::Refresh
}

/// The commands that bring one fresh window up on a rectangle: allocate
/// and paint both surfaces, box the frame, and flush both.
pub open spec fn fresh_cmds(
    ylen: usize,
    xlen: usize,
    ypos: usize,
    xpos: usize,
    attr: Attr,
    cmds: Seq<DrawCmd>,
) -> bool {
    &&& cmds.len() == 7
    &&& cmds[0].part == crate::screen::Part::Frame && cmds[0].op
        == (crate::screen::ScreenOp::Alloc { ylen, xlen, ypos, xpos })
    &&& cmds[1].part == crate::screen::Part::Frame && cmds[1].op
        == (crate::screen::ScreenOp::Bkgd { attr: attr.color_attr })
    &&& cmds[2].part == crate::screen::Part::Frame && cmds[2].op
        == crate::screen::ScreenOp::DrawBox
    &&& cmds[3].part == crate::screen::Part::Panel && cmds[3].op
        == (crate::screen::ScreenOp::Alloc {
        ylen: (ylen - 2) as usize,
        xlen: (xlen - 2) as usize,
        ypos: (ypos + 1) as usize,
        xpos: (xpos + 1) as usize,
    })
    &&& cmds[4].part == crate::screen::Part::Panel && cmds[4].op
        == (crate::screen::ScreenOp::Bkgd { attr: attr.color_attr })
    &&& cmds[5].part == crate::screen::Part::Frame && cmds[5].op
        == crate::screen::ScreenOp::Refresh
    &&& cmds[6].part == crate::screen::Part::Panel && cmds[6].op
        == crate::screen::ScreenOp::Refresh
}

/// Everything of a window but its focus flag.
pub open spec fn same_but_focus(a: Window, b: Window) -> bool {
    &&& a.frame.ylen == b.frame.ylen && a.frame.xlen == b.frame.xlen
    &&& a.frame.ypos == b.frame.ypos && a.frame.xpos == b.frame.xpos
    &&& a.frame.title@ == b.frame.title@
    &&& a.panel == b.panel
    &&& a.buffer == b.buffer
    &&& a.offset == b.offset
}

/// The pane registry.
#[derive(Debug)]
pub struct Container {
    /// The windows, in layout order.
    pub v: Vec<Window>,
    /// The indices of the windows with a file attached, in layout order.
    pub biv: Vec<usize>,
    /// The watch-handle map: file-watch id to pane index.
    pub wih: Vec<(i32, usize)>,
    /// The focused pane.
    pub ci: usize,
    /// The cached terminal attributes.
    pub attr: Attr,
    /// The one-way interrupt flag.
    pub interrupted: bool,
}

impl Default for Container {
    /// An empty registry on a blank screen.
    fn default() -> (res: Container)
        ensures
            res.wf(),
            res.v@.len() == 0,
            res.biv@.len() == 0,
            res.wih@.len() == 0,
            res.ci == 0,
            !res.interrupted,
    {
        Container::empty(Attr::new())
    }
}

impl Container {
    /// Every window is sound, the live list is a strictly increasing list
    /// of panes, the focus and the watch map point at panes.
    pub open spec fn panes_ok(self) -> bool {
        &&& forall|i: int| 0 <= i < self.v@.len() ==> (#[trigger] self.v@[i]).wf()
        &&& forall|i: int| 0 <= i < self.biv@.len() ==> (#[trigger] self.biv@[i]) < self.v@.len()
        &&& forall|a: int, b: int|
            0 <= a < b < self.biv@.len() ==> self.biv@[a] < self.biv@[b]
        &&& (self.v@.len() > 0 ==> self.ci < self.v@.len())
        &&& (self.v@.len() == 0 ==> self.ci == 0)
        &&& forall|i: int| 0 <= i < self.wih@.len() ==> (#[trigger] self.wih@[i]).1 < self.v@.len()
    }

    /// The registry invariant: the panes are sound, and the focused index,
    /// whenever any pane is live, is itself live.
    pub open spec fn wf(self) -> bool {
        &&& self.panes_ok()
        &&& (self.biv@.len() > 0 ==> find_pos(self.biv@, self.ci) >= 0)
    }

    /// An empty registry.
    pub fn empty(attr: Attr) -> (res: Container)
        ensures
            res.wf(),
            res.v@.len() == 0,
            res.biv@.len() == 0,
            res.wih@.len() == 0,
            res.ci == 0,
            res.attr == attr,
            !res.interrupted,
    {
        Container { v: Vec::new(), biv: Vec::new(), wih: Vec::new(), ci: 0, attr, interrupted: false }
    }

    /// Lay one pane out: resize the window already in the slot, or append a
    /// fresh one.  Fails if and only if the rectangle cannot carry a
    /// bordered window.
    pub fn alloc_window(&mut self, seq: usize, ylen: usize, xlen: usize, ypos: usize, xpos: usize) -> (res:
        Result<Vec<DrawCmd>, Error>)
        requires
            old(self).wf(),
        ensures
            final(self).wf(),
            (ylen >= 2 && xlen >= 2 && ypos <= usize::MAX - 1 && xpos <= usize::MAX - 1) <==> res
                is Ok,
            res is Err ==> res->Err_0 == Error::BadLayout && unchanged_sem(
                *old(self),
                *final(self),
            ),
            res is Ok ==> {
                let target = if seq < old(self).v@.len() {
                    seq as int
                } else {
                    old(self).v@.len() as int
                };
                &&& final(self).v@.len() == if seq < old(self).v@.len() {
                    old(self).v@.len()
                } else {
                    old(self).v@.len() + 1
                }
                &&& forall|i: int|
                    0 <= i < old(self).v@.len() && i != target ==> final(self).v@[i] == old(
                        self,
                    ).v@[i]
                &&& final(self).v@[target].frame.ylen == ylen
                &&& final(self).v@[target].frame.xlen == xlen
                &&& final(self).v@[target].frame.ypos == ypos
                &&& final(self).v@[target].frame.xpos == xpos
                &&& final(self).v@[target].panel.ylen == ylen - 2
                &&& final(self).v@[target].panel.xlen == xlen - 2
                &&& final(self).v@[target].panel.ypos == ypos + 1
                &&& final(self).v@[target].panel.xpos == xpos + 1
                &&& final(self).v@[target].offset == 0
                &&& seq < old(self).v@.len() ==> {
                    &&& final(self).v@[target].buffer == old(self).v@[target].buffer
                    &&& final(self).v@[target].frame.title@ == old(self).v@[target].frame.title@
                    &&& final(self).v@[target].frame.focus == old(self).v@[target].frame.focus
                }
                &&& seq >= old(self).v@.len() ==> {
                    &&& !final(self).v@[target].buffer.alive
                    &&& final(self).v@[target].buffer.maxline == 0
                    &&& final(self).v@[target].frame.title@ == Seq::<u8>::empty()
                    &&& !final(self).v@[target].frame.focus
                }
                &&& forall|c: int|
                    0 <= c < res->Ok_0@.len() ==> (#[trigger] res->Ok_0@[c]).pane == target
                &&& seq < old(self).v@.len() ==> resize_cmds(
                    old(self).v@[target],
                    final(self).v@[target],
                    old(self).attr,
                    res->Ok_0@,
                )
                &&& seq >= old(self).v@.len() ==> fresh_cmds(
                    ylen,
                    xlen,
                    ypos,
                    xpos,
                    old(self).attr,
                    res->Ok_0@,
                )
                &&& final(self).biv@ == old(self).biv@
                &&& final(self).wih@ == old(self).wih@
                &&& final(self).ci == old(self).ci
                &&& final(self).attr == old(self).attr
                &&& final(self).interrupted == old(self).interrupted
            },
    {
        let mut out: Vec<DrawCmd> = Vec::new();
        if seq < self.v.len() {
            let attr = self.attr;
            let wops = match (&mut self.v[seq]).resize(ylen, xlen, ypos, xpos, &attr) {
                Ok(w) => w,
                Err(e) => {
                    proof {
                        assert(self.v@ =~= old(self).v@);
                    }
                    return Err(e);
                },
            };
            wrap_draw(seq, wops, &mut out);
            proof {
                assert forall|i: int| 0 <= i < self.v@.len() implies (#[trigger] self.v@[i]).wf()
                by {
                    if i != seq as int {
                        assert(self.v@[i] == old(self).v@[i]);
                        assert(old(self).v@[i].wf());
                    }
                }
            }
            Ok(out)
        } else {
            let attr = self.attr;
            let (w, wops) = match Window::new(ylen, xlen, ypos, xpos, &attr) {
                Ok(p) => p,
                Err(e) => {
                    return Err(e);
                },
            };
            let target = self.v.len();
            self.v.push(w);
            wrap_draw(target, wops, &mut out);
            proof {
                assert forall|i: int| 0 <= i < self.v@.len() implies (#[trigger] self.v@[i]).wf()
                by {
                    if i < old(self).v@.len() {
                        assert(self.v@[i] == old(self).v@[i]);
                        assert(old(self).v@[i].wf());
                    }
                }
            }
            Ok(out)
        }
    }

    /// Lay all panes of a column-major grid out.  Succeeds if and only if
    /// the layout is non-empty and every grid rectangle can carry a
    /// bordered window.
    pub fn build_window_xy(&mut self, opt: &Opt) -> (res: Result<Vec<DrawCmd>, Error>)
        requires
            old(self).wf(),
        ensures
            final(self).wf(),
            res is Err ==> res->Err_0 == Error::BadLayout && untouched_but_panes(
                *old(self),
                *final(self),
            ),
            res is Ok <==> opt.layout@.len() > 0 && crate::layout::grid_fits(
                grid_of(old(self).attr.lines as int, old(self).attr.cols as int, opt.layout@, false),
            ),
            res is Ok ==> build_sem(
                *old(self),
                *final(self),
                opt.layout@,
                false,
                res->Ok_0@,
            ),
    {
        let rects = match crate::layout::layout_xy(
            self.attr.get_terminal_lines(),
            self.attr.get_terminal_cols(),
            &opt.layout,
        ) {
            Ok(r) => r,
            Err(e) => {
                return Err(e);
            },
        };
        proof {
            crate::layout::lemma_layout_tiling(
                self.attr.lines as int,
                self.attr.cols as int,
                opt.layout@,
                false,
            );
        }
        self.alloc_rects(rects, Ghost(grid_of(
            self.attr.lines as int,
            self.attr.cols as int,
            opt.layout@,
            false,
        )))
    }

    /// Lay all panes of a row-major grid out.  Succeeds if and only if the
    /// layout is non-empty and every grid rectangle can carry a bordered
    /// window.
    pub fn build_window_yx(&mut self, opt: &Opt) -> (res: Result<Vec<DrawCmd>, Error>)
        requires
            old(self).wf(),
        ensures
            final(self).wf(),
            res is Err ==> res->Err_0 == Error::BadLayout && untouched_but_panes(
                *old(self),
                *final(self),
            ),
            res is Ok <==> opt.layout@.len() > 0 && crate::layout::grid_fits(
                grid_of(old(self).attr.lines as int, old(self).attr.cols as int, opt.layout@, true),
            ),
            res is Ok ==> build_sem(
                *old(self),
                *final(self),
                opt.layout@,
                true,
                res->Ok_0@,
            ),
    {
        let rects = match crate::layout::layout_yx(
            self.attr.get_terminal_lines(),
            self.attr.get_terminal_cols(),
            &opt.layout,
        ) {
            Ok(r) => r,
            Err(e) => {
                return Err(e);
            },
        };
        proof {
            crate::layout::lemma_layout_tiling(
                self.attr.lines as int,
                self.attr.cols as int,
                opt.layout@,
                true,
            );
        }
        self.alloc_rects(rects, Ghost(grid_of(
            self.attr.lines as int,
            self.attr.cols as int,
            opt.layout@,
            true,
        )))
    }

    /// Rebuild the pane grid in the orientation the options ask for.
    /// Succeeds if and only if the layout is non-empty and every grid
    /// rectangle can carry a bordered window.
    pub fn build_window(&mut self, opt: &Opt) -> (res: Result<Vec<DrawCmd>, Error>)
        requires
            old(self).wf(),
        ensures
            final(self).wf(),
            res is Err ==> res->Err_0 == Error::BadLayout && untouched_but_panes(
                *old(self),
                *final(self),
            ),
            res is Ok <==> opt.layout@.len() > 0 && crate::layout::grid_fits(
                grid_of(
                    old(self).attr.lines as int,
                    old(self).attr.cols as int,
                    opt.layout@,
                    opt.rotatecol,
                ),
            ),
            res is Ok ==> build_sem(
                *old(self),
                *final(self),
                opt.layout@,
                opt.rotatecol,
                res->Ok_0@,
            ),
    {
        if !opt.rotatecol {
            self.build_window_xy(opt)
        } else {
            self.build_window_yx(opt)
        }
    }

    /// Lay out one window per rectangle, in order.
    fn alloc_rects(&mut self, rects: Vec<Rect>, grid: Ghost<Seq<crate::layout::RectSpec>>) -> (res:
        Result<Vec<DrawCmd>, Error>)
        requires
            old(self).wf(),
            crate::layout::rects_view(rects@) == grid@,
            forall|k: int|
                0 <= k < grid@.len() ==> {
                    &&& 0 <= (#[trigger] grid@[k]).ypos
                    &&& grid@[k].ypos + grid@[k].ylen <= usize::MAX
                    &&& 0 <= grid@[k].xpos
                    &&& grid@[k].xpos + grid@[k].xlen <= usize::MAX
                },
        ensures
            final(self).wf(),
            res is Ok <==> crate::layout::grid_fits(grid@),
            res is Err ==> res->Err_0 == Error::BadLayout && untouched_but_panes(
                *old(self),
                *final(self),
            ),
            res is Ok ==> grid_built(*old(self), *final(self), grid@, res->Ok_0@),
    {
        let mut out: Vec<DrawCmd> = Vec::new();
        let m = rects.len();
        let ghost pre = *old(self);
        for seq in 0..m
            invariant
                pre == *old(self),
                self.wf(),
                m == rects@.len(),
                crate::layout::rects_view(rects@) == grid@,
                forall|k: int|
                    0 <= k < grid@.len() ==> {
                        &&& 0 <= (#[trigger] grid@[k]).ypos
                        &&& grid@[k].ypos + grid@[k].ylen <= usize::MAX
                        &&& 0 <= grid@[k].xpos
                        &&& grid@[k].xpos + grid@[k].xlen <= usize::MAX
                    },
                self.v@.len() == vstd::math::max(pre.v@.len() as int, seq as int),
                forall|i: int| seq <= i < pre.v@.len() ==> self.v@[i] == pre.v@[i],
                forall|i: int| 0 <= i < seq ==> #[trigger] pane_fits(pre, *self, grid@, i),
                forall|c: int| 0 <= c < out@.len() ==> (#[trigger] out@[c]).pane < self.v@.len(),
                out@.len() == seg_start(pre.v@.len() as int, m as int, seq as int),
                forall|k: int|
                    0 <= k < seq ==> {
                        let a = #[trigger] seg_start(pre.v@.len() as int, m as int, k);
                        let b = seg_start(pre.v@.len() as int, m as int, k + 1);
                        &&& (k < pre.v@.len() ==> resize_cmds(
                            pre.v@[k],
                            self.v@[k],
                            pre.attr,
                            out@.subrange(a, b),
                        ))
                        &&& (k >= pre.v@.len() ==> fresh_cmds(
                            self.v@[k].frame.ylen,
                            self.v@[k].frame.xlen,
                            self.v@[k].frame.ypos,
                            self.v@[k].frame.xpos,
                            pre.attr,
                            out@.subrange(a, b),
                        ))
                    },
                self.biv@ == pre.biv@,
                self.wih@ == pre.wih@,
                self.ci == pre.ci,
                self.attr == pre.attr,
                self.interrupted == pre.interrupted,
        {
            let r = rects[seq];
            let ghost snap = *self;
            let cmds = match self.alloc_window(seq, r.ylen, r.xlen, r.ypos, r.xpos) {
                Ok(c) => c,
                Err(e) => {
                    proof {
                        // the rejected rectangle is too small: a position
                        // at the very edge forces a zero length
                        let gr = grid@[seq as int];
                        assert(gr == crate::layout::rect_view(rects@[seq as int]));
                        assert(0 <= grid@[seq as int].ypos && grid@[seq as int].ypos + grid@[
                            seq as int
                        ].ylen <= usize::MAX);
                        assert(0 <= grid@[seq as int].xpos && grid@[seq as int].xpos + grid@[
                            seq as int
                        ].xlen <= usize::MAX);
                        assert(gr.ylen < 2 || gr.xlen < 2);
                        assert(!crate::layout::grid_fits(grid@));
                    }
                    return Err(e);
                },
            };
            let ghost ac = cmds@;
            let ghost old_out = out@;
            let mut cmds = cmds;
            out.append(&mut cmds);
            proof {
                let pl = pre.v@.len() as int;
                let mi = m as int;
                assert(out@.len() == seg_start(pl, mi, seq + 1));
                assert forall|k: int| 0 <= k < seq + 1 implies {
                    let a = #[trigger] seg_start(pl, mi, k);
                    let b = seg_start(pl, mi, k + 1);
                    &&& (k < pl ==> resize_cmds(pre.v@[k], self.v@[k], pre.attr, out@.subrange(a, b)))
                    &&& (k >= pl ==> fresh_cmds(
                        self.v@[k].frame.ylen,
                        self.v@[k].frame.xlen,
                        self.v@[k].frame.ypos,
                        self.v@[k].frame.xpos,
                        pre.attr,
                        out@.subrange(a, b),
                    ))
                } by {
                    let a = seg_start(pl, mi, k);
                    let b = seg_start(pl, mi, k + 1);
                    if k < seq {
                        assert(b <= old_out.len());
                        assert(out@.subrange(a, b) =~= old_out.subrange(a, b));
                        assert(self.v@[k] == snap.v@[k]);
                    } else {
                        assert(a == old_out.len());
                        assert(out@.subrange(a, b) =~= ac);
                        if k < pl {
                            assert(snap.v@[seq as int] == pre.v@[seq as int]);
                        }
                    }
                }
                assert(grid@[seq as int] == crate::layout::rect_view(rects@[seq as int]));
                assert forall|i: int| 0 <= i < seq + 1 implies #[trigger] pane_fits(
                    pre,
                    *self,
                    grid@,
                    i,
                ) by {
                    if i < seq {
                        assert(pane_fits(pre, snap, grid@, i));
                        assert(self.v@[i] == snap.v@[i]);
                    } else {
                        assert(grid@[i] == crate::layout::rect_view(rects@[i]));
                    }
                }
            }
        }
        proof {
            assert forall|k: int|
                0 <= k < grid@.len() implies (#[trigger] grid@[k]).ylen >= 2 && grid@[k].xlen
                >= 2 by {
                assert(pane_fits(pre, *self, grid@, k));
            }
        }
        Ok(out)
    }
}

/// Pane `i` of the new registry sits exactly on rectangle `i` of the grid,
/// keeping its buffer, title and focus when it already existed and fresh
/// and dead otherwise.
pub open spec fn pane_fits(
    pre: Container,
    post: Container,
    grid: Seq<crate::layout::RectSpec>,
    i: int,
) -> bool {
    &&& post.v@[i].frame.ylen == grid[i].ylen
    &&& post.v@[i].frame.xlen == grid[i].xlen
    &&& post.v@[i].frame.ypos == grid[i].ypos
    &&& post.v@[i].frame.xpos == grid[i].xpos
    &&& post.v@[i].panel.ylen == grid[i].ylen - 2
    &&& post.v@[i].panel.xlen == grid[i].xlen - 2
    &&& post.v@[i].panel.ypos == grid[i].ypos + 1
    &&& post.v@[i].panel.xpos == grid[i].xpos + 1
    &&& post.v@[i].offset == 0
    &&& i < pre.v@.len() ==> {
        &&& post.v@[i].buffer == pre.v@[i].buffer
        &&& post.v@[i].frame.title@ == pre.v@[i].frame.title@
        &&& post.v@[i].frame.focus == pre.v@[i].frame.focus
    }
    &&& i >= pre.v@.len() ==> {
        &&& !post.v@[i].buffer.alive
        &&& post.v@[i].buffer.maxline == 0
        &&& post.v@[i].frame.title@ == Seq::<u8>::empty()
        &&& !post.v@[i].frame.focus
    }
}

/// A grid was laid out: the pane list grew to cover it and never shrank,
/// every grid pane sits on its rectangle, panes beyond the grid stand
/// untouched, and nothing else of the registry moved.
pub open spec fn grid_built(
    pre: Container,
    post: Container,
    grid: Seq<crate::layout::RectSpec>,
    cmds: Seq<DrawCmd>,
) -> bool {
    &&& post.v@.len() == vstd::math::max(pre.v@.len() as int, grid.len() as int)
    &&& forall|i: int| 0 <= i < grid.len() ==> #[trigger] pane_fits(pre, post, grid, i)
    &&& forall|i: int| grid.len() <= i < pre.v@.len() ==> post.v@[i] == pre.v@[i]
    &&& forall|c: int| 0 <= c < cmds.len() ==> (#[trigger] cmds[c]).pane < post.v@.len()
    &&& cmds.len() == seg_start(pre.v@.len() as int, grid.len() as int, grid.len() as int)
    &&& forall|k: int|
        0 <= k < grid.len() ==> {
            let a = #[trigger] seg_start(pre.v@.len() as int, grid.len() as int, k);
            let b = seg_start(pre.v@.len() as int, grid.len() as int, k + 1);
            &&& (k < pre.v@.len() ==> resize_cmds(
                pre.v@[k],
                post.v@[k],
                pre.attr,
                cmds.subrange(a, b),
            ))
            &&& (k >= pre.v@.len() ==> fresh_cmds(
                post.v@[k].frame.ylen,
                post.v@[k].frame.xlen,
                post.v@[k].frame.ypos,
                post.v@[k].frame.xpos,
                pre.attr,
                cmds.subrange(a, b),
            ))
        }
    &&& post.biv@ == pre.biv@
    &&& post.wih@ == pre.wih@
    &&& post.ci == pre.ci
    &&& post.attr == pre.attr
    &&& post.interrupted == pre.interrupted
}

/// The grid of the options' layout was laid out on the registry's cached
/// terminal size.
pub open spec fn build_sem(
    pre: Container,
    post: Container,
    layout: Seq<usize>,
    rotate: bool,
    cmds: Seq<DrawCmd>,
) -> bool {
    grid_built(
        pre,
        post,
        grid_of(pre.attr.lines as int, pre.attr.cols as int, layout, rotate),
        cmds,
    )
}


/// The focus moved from the old focused pane to `newci`: both windows keep
/// everything but their focus flag, and the commands repaint the two
/// titles, plain then highlighted.
pub open spec fn focus_moved(
    pre: Container,
    post: Container,
    cmds: Seq<DrawCmd>,
    newci: usize,
) -> bool {
    &&& post.v@.len() == pre.v@.len()
    &&& post.ci == newci
    &&& forall|i: int|
        0 <= i < pre.v@.len() && i != pre.ci && i != newci ==> post.v@[i] == pre.v@[i]
    &&& same_but_focus(post.v@[pre.ci as int], pre.v@[pre.ci as int])
    &&& same_but_focus(post.v@[newci as int], pre.v@[newci as int])
    &&& post.v@[newci as int].frame.focus
    &&& (newci != pre.ci ==> !post.v@[pre.ci as int].frame.focus)
    &&& post.biv@ == pre.biv@
    &&& post.wih@ == pre.wih@
    &&& post.attr == pre.attr
    &&& post.interrupted == pre.interrupted
    &&& cmds.len() == 4
    &&& unfocus_cmds(pre, cmds)
    &&& cmds[2].pane == newci && cmds[2].part == crate::screen::Part::Frame && cmds[2].op is Print
    &&& cmds[2].op->Print_y == 0 && cmds[2].op->Print_x == 1
    &&& cmds[2].op->Print_standout == true
    &&& cmds[2].op->Print_attr == pre.attr.standout_attr
    &&& cmds[2].op->Print_text@ == pre.v@[newci as int].frame.title@
    &&& cmds[3].pane == newci && cmds[3].part == crate::screen::Part::Frame && cmds[3].op
        == crate::screen::ScreenOp::Refresh
}

/// The first two commands take the highlight off the focused pane's title.
pub open spec fn unfocus_cmds(pre: Container, cmds: Seq<DrawCmd>) -> bool {
    &&& cmds.len() >= 2
    &&& cmds[0].pane == pre.ci && cmds[0].part == crate::screen::Part::Frame && cmds[0].op
        is Print
    &&& cmds[0].op->Print_y == 0 && cmds[0].op->Print_x == 1
    &&& cmds[0].op->Print_standout == false
    &&& cmds[0].op->Print_attr == 0
    &&& cmds[0].op->Print_text@ == pre.v@[pre.ci as int].frame.title@
    &&& cmds[1].pane == pre.ci && cmds[1].part == crate::screen::Part::Frame && cmds[1].op
        == crate::screen::ScreenOp::Refresh
}

/// The focus stepped forward: to the next live pane after the focused one,
/// to the first live pane when none was focused; with no live pane at all,
/// nothing happens.
pub open spec fn next_moved(pre: Container, post: Container, cmds: Seq<DrawCmd>) -> bool {
    let p = find_pos(pre.biv@, pre.ci);
    let len = pre.biv@.len() as int;
    &&& (len == 0 ==> post == pre && cmds.len() == 0)
    &&& (len > 0 && p >= 0 ==> focus_moved(pre, post, cmds, pre.biv@[next_pos(len, p)]))
    &&& (len > 0 && p < 0 ==> focus_moved(pre, post, cmds, pre.biv@[0]))
}

/// The focus stepped back: to the previous live pane before the focused
/// one, to the last live pane when none was focused; with no live pane at
/// all, nothing happens.
pub open spec fn prev_moved(pre: Container, post: Container, cmds: Seq<DrawCmd>) -> bool {
    let p = find_pos(pre.biv@, pre.ci);
    let len = pre.biv@.len() as int;
    &&& (len == 0 ==> post == pre && cmds.len() == 0)
    &&& (len > 0 && p >= 0 ==> focus_moved(pre, post, cmds, pre.biv@[prev_pos(len, p)]))
    &&& (len > 0 && p < 0 ==> focus_moved(pre, post, cmds, pre.biv@[len - 1]))
}

/// One forward step obeys the cyclic successor: a `goto_next_window` call
/// from a registry whose focus is live leaves the live list as it was and
/// advances the focus position by one, cyclically.  Chained with
/// `lemma_focus_cycle`, stepping as many times as there are live panes
/// returns the focus to the pane it began on.
pub proof fn lemma_next_moved_steps(pre: Container, post: Container, cmds: Seq<DrawCmd>)
    requires
        pre.wf(),
        pre.biv@.len() > 0,
        find_pos(pre.biv@, pre.ci) >= 0,
        next_moved(pre, post, cmds),
    ensures
        post.biv@ == pre.biv@,
        find_pos(post.biv@, post.ci) == next_pos(
            pre.biv@.len() as int,
            find_pos(pre.biv@, pre.ci),
        ),
{
    let len = pre.biv@.len() as int;
    let p = find_pos(pre.biv@, pre.ci);
    lemma_find_pos_range(pre.biv@, pre.ci);
    let j = next_pos(len, p);
    assert(0 <= j < len) by (nonlinear_arith)
        requires
            0 <= p < len,
            j == (p + 1) % len,
    ;
    lemma_find_pos_of_elem(pre.biv@, j);
}

/// One backward step obeys the cyclic predecessor, undoing a forward step
/// as `lemma_prev_next_cancel` states.
pub proof fn lemma_prev_moved_steps(pre: Container, post: Container, cmds: Seq<DrawCmd>)
    requires
        pre.wf(),
        pre.biv@.len() > 0,
        find_pos(pre.biv@, pre.ci) >= 0,
        prev_moved(pre, post, cmds),
    ensures
        post.biv@ == pre.biv@,
        find_pos(post.biv@, post.ci) == prev_pos(
            pre.biv@.len() as int,
            find_pos(pre.biv@, pre.ci),
        ),
{
    let len = pre.biv@.len() as int;
    let p = find_pos(pre.biv@, pre.ci);
    lemma_find_pos_range(pre.biv@, pre.ci);
    lemma_find_pos_of_elem(pre.biv@, prev_pos(len, p));
}

/// Only the focused pane's scroll offset moved, to `newoff`.
pub open spec fn scrolled_to(pre: Container, post: Container, newoff: int) -> bool {
    &&& post.v@.len() == pre.v@.len()
    &&& forall|i: int| 0 <= i < pre.v@.len() && i != pre.ci ==> post.v@[i] == pre.v@[i]
    &&& post.v@[pre.ci as int].offset == newoff
    &&& post.v@[pre.ci as int].frame == pre.v@[pre.ci as int].frame
    &&& post.v@[pre.ci as int].panel == pre.v@[pre.ci as int].panel
    &&& post.v@[pre.ci as int].buffer == pre.v@[pre.ci as int].buffer
    &&& post.ci == pre.ci
    &&& post.biv@ == pre.biv@
    &&& post.wih@ == pre.wih@
    &&& post.attr == pre.attr
    &&& post.interrupted == pre.interrupted
}

/// A page of scrolling: the terminal height, as far as a signed scroll can
/// express it.
pub open spec fn page_delta(lines: int) -> int {
    if lines > isize::MAX as int {
        isize::MAX as int
    } else {
        lines
    }
}

/// The pane index a watch handle maps to: the latest recorded entry wins,
/// as re-registering a handle overwrites a map entry.
pub open spec fn lookup_spec(wih: Seq<(i32, usize)>, wd: i32) -> Option<usize>
    decreases wih.len(),
{
    if wih.len() == 0 {
        Option::None
    } else if wih.last().0 == wd {
        Option::Some(wih.last().1)
    } else {
        lookup_spec(wih.drop_last(), wd)
    }
}

proof fn lemma_panes_total_pos(s: Seq<usize>)
    ensures
        crate::layout::panes_total(s) >= s.len(),
    decreases s.len(),
{
    if s.len() > 0 {
        lemma_panes_total_pos(s.drop_last());
    }
}

/// Relies on rand::random: a freshly sampled value, of which nothing is
/// promised.
pub assume_specification<T>[ rand::random::<T> ]() -> (r: T)
    where
        rand::distr::StandardUniform: rand::distr::Distribution<T>,
;

/// The delay before a pane's first repaint: the configured interval, or,
/// when randomized, a fresh draw within the interval, capped below one
/// second.
pub fn initial_delay(sinterval: u64, minterval: u64, usedelay: bool) -> (d: u64)
    requires
        sinterval <= (u64::MAX - minterval) / 1000,
    ensures
        !usedelay ==> d == sinterval * 1000 + minterval,
        usedelay ==> d < 1000,
        usedelay && sinterval * 1000 + minterval > 0 ==> d < sinterval * 1000 + minterval,
        usedelay && sinterval * 1000 + minterval == 0 ==> d == 0,
{
    proof {
        assert(sinterval * 1000 + minterval <= u64::MAX) by (nonlinear_arith)
            requires
                sinterval <= (u64::MAX - minterval) / 1000,
                minterval <= u64::MAX,
        ;
    }
    let t = sinterval * 1000 + minterval;
    if usedelay {
        let bound = if t < 1000 {
            t
        } else {
            1000
        };
        if bound == 0 {
            0
        } else {
            let r: u64 = rand::random();
            r % bound
        }
    } else {
        t
    }
}

impl Container {
    /// Move the focus to the next live pane, cyclically; with the focus on
    /// no live pane, to the first live one; with no live pane at all,
    /// nothing happens.
    pub fn goto_next_window(&mut self) -> (out: Vec<DrawCmd>)
        requires
            old(self).wf(),
            old(self).v@.len() > 0,
        ensures
            final(self).wf(),
            next_moved(*old(self), *final(self), out@),
    {
        let n = self.biv.len();
        if n == 0 {
            return Vec::new();
        }
        let a = self.attr.get_standout_attr();
        let ci0 = self.ci;
        let mut out: Vec<DrawCmd> = Vec::new();
        let uf = (&mut self.v[ci0]).focus(false, 0);
        wrap_draw(ci0, uf, &mut out);
        let mut p: usize = n;
        let mut i: usize = 0;
        while i < n
            invariant_except_break
                p == n,
                i <= n,
                n == self.biv@.len(),
                forall|k: int| 0 <= k < i ==> self.biv@[k] != ci0,
            ensures
                (p == n && forall|k: int| 0 <= k < n ==> self.biv@[k] != ci0) || (p < n
                    && self.biv@[p as int] == ci0 && forall|k: int|
                    0 <= k < p ==> self.biv@[k] != ci0),
            decreases n - i,
        {
            if self.biv[i] == ci0 {
                p = i;
                break ;
            }
            i = i + 1;
        }
        if p < n {
            proof {
                lemma_find_pos_at(self.biv@, ci0, p as int);
            }
            let next = if p + 1 == n {
                self.biv[0]
            } else {
                self.biv[p + 1]
            };
            proof {
                if p + 1 == n {
                    assert((p + 1) as int % (n as int) == 0) by (nonlinear_arith)
                        requires
                            p + 1 == n,
                            0 < n,
                    ;
                } else {
                    assert((p + 1) as int % (n as int) == p + 1) by (nonlinear_arith)
                        requires
                            0 <= p,
                            p + 1 < n,
                    ;
                }
                lemma_find_pos_of_elem(self.biv@, (p + 1) as int % (n as int));
            }
            let f = (&mut self.v[next]).focus(true, a);
            wrap_draw(next, f, &mut out);
            self.ci = next;
        } else {
            proof {
                lemma_find_pos_none(self.biv@, ci0);
                lemma_find_pos_of_elem(self.biv@, 0);
            }
            let next = self.biv[0];
            let f = (&mut self.v[next]).focus(true, a);
            wrap_draw(next, f, &mut out);
            self.ci = next;
        }
        out
    }

    /// Move the focus to the previous live pane, cyclically; with the
    /// focus on no live pane, to the last live one; with no live pane at
    /// all, nothing happens.
    pub fn goto_prev_window(&mut self) -> (out: Vec<DrawCmd>)
        requires
            old(self).wf(),
            old(self).v@.len() > 0,
        ensures
            final(self).wf(),
            prev_moved(*old(self), *final(self), out@),
    {
        let n = self.biv.len();
        if n == 0 {
            return Vec::new();
        }
        let a = self.attr.get_standout_attr();
        let ci0 = self.ci;
        let mut out: Vec<DrawCmd> = Vec::new();
        let uf = (&mut self.v[ci0]).focus(false, 0);
        wrap_draw(ci0, uf, &mut out);
        let mut p: usize = n;
        let mut i: usize = 0;
        while i < n
            invariant_except_break
                p == n,
                i <= n,
                n == self.biv@.len(),
                forall|k: int| 0 <= k < i ==> self.biv@[k] != ci0,
            ensures
                (p == n && forall|k: int| 0 <= k < n ==> self.biv@[k] != ci0) || (p < n
                    && self.biv@[p as int] == ci0 && forall|k: int|
                    0 <= k < p ==> self.biv@[k] != ci0),
            decreases n - i,
        {
            if self.biv[i] == ci0 {
                p = i;
                break ;
            }
            i = i + 1;
        }
        if p < n {
            proof {
                lemma_find_pos_at(self.biv@, ci0, p as int);
            }
            let next = if p == 0 {
                self.biv[n - 1]
            } else {
                self.biv[p - 1]
            };
            proof {
                lemma_find_pos_of_elem(self.biv@, prev_pos(n as int, p as int));
            }
            let f = (&mut self.v[next]).focus(true, a);
            wrap_draw(next, f, &mut out);
            self.ci = next;
        } else {
            proof {
                lemma_find_pos_none(self.biv@, ci0);
                lemma_find_pos_of_elem(self.biv@, n as int - 1);
            }
            let next = self.biv[n - 1];
            let f = (&mut self.v[next]).focus(true, a);
            wrap_draw(next, f, &mut out);
            self.ci = next;
        }
        out
    }

    /// Raise the one-way interrupt flag.
    pub fn set_interrupted(&mut self)
        ensures
            final(self).interrupted,
            final(self).v@ == old(self).v@,
            final(self).biv@ == old(self).biv@,
            final(self).wih@ == old(self).wih@,
            final(self).ci == old(self).ci,
            final(self).attr == old(self).attr,
    {
        self.interrupted = true;
    }

    /// Has the interrupt flag been raised?
    pub fn is_interrupted(&self) -> (res: bool)
        ensures
            res == self.interrupted,
    {
        self.interrupted
    }

    /// Record a file-watch handle for a pane.  Fails if and only if the
    /// pane does not exist.
    pub fn register_watch(&mut self, wd: i32, pane: usize) -> (res: Result<(), Error>)
        requires
            old(self).wf(),
        ensures
            final(self).wf(),
            pane < old(self).v@.len() <==> res is Ok,
            res is Err ==> res->Err_0 == Error::Other && unchanged_sem(*old(self), *final(self)),
            res is Ok ==> {
                &&& final(self).wih@ == old(self).wih@.push((wd, pane))
                &&& final(self).v@ == old(self).v@
                &&& final(self).biv@ == old(self).biv@
                &&& final(self).ci == old(self).ci
                &&& final(self).attr == old(self).attr
                &&& final(self).interrupted == old(self).interrupted
            },
    {
        if pane >= self.v.len() {
            return Err(Error::Other);
        }
        self.wih.push((wd, pane));
        Ok(())
    }

    /// The pane a watch handle maps to.
    pub fn lookup_watch(&self, wd: i32) -> (res: Option<usize>)
        requires
            self.wf(),
        ensures
            res == lookup_spec(self.wih@, wd),
            res is Some ==> res->0 < self.v@.len(),
    {
        let n = self.wih.len();
        let mut res: Option<usize> = None;
        proof {
            assert(self.wih@.take(0) =~= Seq::<(i32, usize)>::empty());
        }
        for i in 0..n
            invariant
                n == self.wih@.len(),
                self.wf(),
                res == lookup_spec(self.wih@.take(i as int), wd),
                res is Some ==> res->0 < self.v@.len(),
        {
            if self.wih[i].0 == wd {
                res = Some(self.wih[i].1);
            }
            proof {
                assert(self.wih@.take(i + 1).drop_last() =~= self.wih@.take(i as int));
                assert(self.wih@.take(i + 1).last() == self.wih@[i as int]);
            }
        }
        proof {
            assert(self.wih@.take(n as int) =~= self.wih@);
        }
        res
    }

    /// Re-scan one pane's file with its current content, after a change
    /// notification.  Fails if and only if the pane does not exist.
    pub fn update_pane(&mut self, pane: usize, content: &[u8]) -> (res: Result<(), Error>)
        requires
            old(self).wf(),
        ensures
            final(self).wf(),
            pane < old(self).v@.len() <==> res is Ok,
            res is Err ==> res->Err_0 == Error::Other && unchanged_sem(*old(self), *final(self)),
            res is Ok ==> {
                &&& final(self).v@.len() == old(self).v@.len()
                &&& forall|i: int|
                    0 <= i < old(self).v@.len() && i != pane ==> final(self).v@[i] == old(
                        self,
                    ).v@[i]
                &&& !old(self).v@[pane as int].buffer.alive ==> final(self).v@[pane as int] == old(
                    self,
                ).v@[pane as int]
                &&& old(self).v@[pane as int].buffer.alive ==> {
                    &&& final(self).v@[pane as int].buffer.alive
                    &&& final(self).v@[pane as int].buffer.lines_view() == lines_of(content@)
                    &&& final(self).v@[pane as int].buffer.maxline == lines_of(content@).len()
                    &&& final(self).v@[pane as int].frame == old(self).v@[pane as int].frame
                    &&& final(self).v@[pane as int].panel == old(self).v@[pane as int].panel
                    &&& final(self).v@[pane as int].offset == old(self).v@[pane as int].offset
                }
                &&& final(self).biv@ == old(self).biv@
                &&& final(self).wih@ == old(self).wih@
                &&& final(self).ci == old(self).ci
                &&& final(self).attr == old(self).attr
                &&& final(self).interrupted == old(self).interrupted
            },
    {
        if pane >= self.v.len() {
            return Err(Error::Other);
        }
        (&mut self.v[pane]).update_buffer(content);
        proof {
            if !old(self).v@[pane as int].buffer.alive {
                assert(self.v@ =~= old(self).v@);
            }
            assert forall|i: int| 0 <= i < self.v@.len() implies (#[trigger] self.v@[i]).wf() by {
                if i != pane as int {
                    assert(self.v@[i] == old(self).v@[i]);
                }
                assert(old(self).v@[i].wf());
            }
        }
        Ok(())
    }
}


/// The two commands that title a pane's frame at attach time.
pub open spec fn attach_cmds(pane: usize, path: Seq<u8>, cmds: Seq<DrawCmd>) -> bool {
    &&& cmds.len() == 2
    &&& cmds[0].pane == pane && cmds[0].part == crate::screen::Part::Frame && cmds[0].op is Print
    &&& cmds[0].op->Print_y == 0 && cmds[0].op->Print_x == 1
    &&& cmds[0].op->Print_standout == false
    &&& cmds[0].op->Print_attr == 0
    &&& cmds[0].op->Print_text@ == path
    &&& cmds[1].pane == pane && cmds[1].part == crate::screen::Part::Frame && cmds[1].op
        == crate::screen::ScreenOp::Refresh
}

/// Every live pane's attach commands stand at their place in the command
/// list: pane `live[a]`'s two title commands begin at `7*n + 2*a`.
pub open spec fn attach_segs(
    files: Seq<FileEntry>,
    n: int,
    live: Seq<usize>,
    out: Seq<DrawCmd>,
) -> bool {
    forall|a: int|
        0 <= a < live.len() ==> attach_cmds(
            (#[trigger] live[a]),
            files[live[a] as int].path@,
            out.subrange(7 * n + 2 * a, 7 * n + 2 * a + 2),
        )
}

/// The two commands that highlight a pane's title when it takes the focus.
pub open spec fn focus_cmds(
    pane: usize,
    title: Seq<u8>,
    standout_attr: u32,
    cmds: Seq<DrawCmd>,
) -> bool {
    &&& cmds.len() == 2
    &&& cmds[0].pane == pane && cmds[0].part == crate::screen::Part::Frame && cmds[0].op is Print
    &&& cmds[0].op->Print_y == 0 && cmds[0].op->Print_x == 1
    &&& cmds[0].op->Print_standout == true
    &&& cmds[0].op->Print_attr == standout_attr
    &&& cmds[0].op->Print_text@ == title
    &&& cmds[1].pane == pane && cmds[1].part == crate::screen::Part::Frame && cmds[1].op
        == crate::screen::ScreenOp::Refresh
}


/// The registry one build-and-attach pass leaves behind for the given
/// files, screen attributes and layout, with the commands that drew it:
/// one pane per grid rectangle, the named files attached in order, the
/// live list recorded, the first live pane focused — or none when no file
/// attached — and the command list made of the build segments, the attach
/// segments and, when a pane is live, the focus tail.
pub open spec fn init_sem(
    files: Seq<FileEntry>,
    attr0: Attr,
    layout: Seq<usize>,
    rotate: bool,
    post: Container,
    cmds: Seq<DrawCmd>,
) -> bool {
    let grid = grid_of(attr0.lines as int, attr0.cols as int, layout, rotate);
    let n = grid.len() as int;
    let live = live_upto(files, n, files.len() as int);
    &&& post.v@.len() == n
    &&& n >= 1
    &&& forall|k: int| 0 <= k < n ==> pane_geometry(#[trigger] post.v@[k], grid[k])
    &&& post.biv@ == live
    &&& post.ci == (if live.len() > 0 {
        live[0]
    } else {
        0
    })
    &&& post.wih@.len() == 0
    &&& post.attr == attr0
    &&& forall|j: int|
        0 <= j < files.len() && j < n && files[j].content is Some ==> {
            &&& (#[trigger] post.v@[j]).buffer.alive
            &&& post.v@[j].buffer.lines_view() == lines_of(files[j].content->0@)
            &&& post.v@[j].buffer.maxline == lines_of(files[j].content->0@).len()
            &&& post.v@[j].frame.title@ == files[j].path@
        }
    &&& forall|k: int|
        0 <= k < n && (k >= files.len() || files[k].content is None) ==> {
            &&& !(#[trigger] post.v@[k]).buffer.alive
            &&& post.v@[k].frame.title@ == Seq::<u8>::empty()
        }
    &&& (live.len() > 0 ==> post.v@[live[0] as int].frame.focus)
    &&& forall|k: int|
        0 <= k < n && (live.len() == 0 || k != live[0]) ==> !(#[trigger] post.v@[k]).frame.focus
    &&& forall|c: int| 0 <= c < cmds.len() ==> (#[trigger] cmds[c]).pane < n
    &&& cmds.len() == 7 * n + 2 * live.len() + (if live.len() > 0 {
        2int
    } else {
        0int
    })
    &&& forall|k: int|
        0 <= k < n ==> fresh_cmds(
            (#[trigger] post.v@[k]).frame.ylen,
            post.v@[k].frame.xlen,
            post.v@[k].frame.ypos,
            post.v@[k].frame.xpos,
            attr0,
            cmds.subrange(7 * k, 7 * k + 7),
        )
    &&& attach_segs(files, n, live, cmds)
    &&& (live.len() > 0 ==> focus_cmds(
        live[0],
        post.v@[live[0] as int].frame.title@,
        attr0.standout_attr,
        cmds.subrange(cmds.len() - 2, cmds.len() as int),
    ))
}

/// The registry after only its terminal size was refreshed.
pub open spec fn resized_pre(pre: Container, lines: usize, cols: usize) -> Container {
    Container {
        attr: Attr {
            lines,
            cols,
            color_attr: pre.attr.color_attr,
            standout_attr: pre.attr.standout_attr,
        },
        ..pre
    }
}

/// A window sits on a rectangle: the frame covers it, the panel is inset
/// by the one-cell border, and the scroll offset is at the top.
pub open spec fn pane_geometry(w: Window, r: crate::layout::RectSpec) -> bool {
    &&& w.frame.ylen == r.ylen
    &&& w.frame.xlen == r.xlen
    &&& w.frame.ypos == r.ypos
    &&& w.frame.xpos == r.xpos
    &&& w.panel.ylen == r.ylen - 2
    &&& w.panel.xlen == r.xlen - 2
    &&& w.panel.ypos == r.ypos + 1
    &&& w.panel.xpos == r.xpos + 1
    &&& w.offset == 0
}

impl Container {
    /// Scroll the focused pane by `d` lines.
    fn do_scroll(&mut self, d: isize) -> (res: EventOutcome)
        requires
            old(self).wf(),
            old(self).v@.len() > 0,
        ensures
            final(self).wf(),
            scrolled_to(
                *old(self),
                *final(self),
                clamp_offset(
                    old(self).v@[old(self).ci as int].offset as int,
                    d as int,
                    old(self).v@[old(self).ci as int].buffer.maxline as int,
                ),
            ),
            res.cmds@.len() == 0,
            res.term@.len() == 0,
            res.notify,
    {
        let ci = self.ci;
        (&mut self.v[ci]).goto_current(d);
        proof {
            assert forall|i: int| 0 <= i < self.v@.len() implies (#[trigger] self.v@[i]).wf() by {
                if i != ci as int {
                    assert(self.v@[i] == old(self).v@[i]);
                }
                assert(old(self).v@[i].wf());
            }
        }
        EventOutcome { cmds: Vec::new(), term: Vec::new(), notify: true }
    }

    /// Refresh the terminal size, clear the screen, and rebuild the grid.
    /// Succeeds if and only if the layout is non-empty and every grid
    /// rectangle of the new terminal size can carry a bordered window.
    fn rebuild(&mut self, term_lines: usize, term_cols: usize, opt: &Opt) -> (res: Result<
        EventOutcome,
        Error,
    >)
        requires
            old(self).wf(),
        ensures
            final(self).wf(),
            final(self).attr.lines == term_lines,
            final(self).attr.cols == term_cols,
            final(self).attr.color_attr == old(self).attr.color_attr,
            final(self).attr.standout_attr == old(self).attr.standout_attr,
            final(self).interrupted == old(self).interrupted,
            res is Ok <==> opt.layout@.len() > 0 && crate::layout::grid_fits(
                grid_of(term_lines as int, term_cols as int, opt.layout@, opt.rotatecol),
            ),
            res is Err ==> res->Err_0 == Error::BadLayout && untouched_but_panes(
                resized_pre(*old(self), term_lines, term_cols),
                *final(self),
            ),
            res is Ok ==> {
                &&& grid_built(
                    resized_pre(*old(self), term_lines, term_cols),
                    *final(self),
                    grid_of(term_lines as int, term_cols as int, opt.layout@, opt.rotatecol),
                    res->Ok_0.cmds@,
                )
                &&& res->Ok_0.term@ =~= seq![TermOp::Clear]
                &&& !res->Ok_0.notify
            },
    {
        crate::screen::update_terminal_size(&mut self.attr, term_lines, term_cols);
        let mut term: Vec<TermOp> = Vec::new();
        term.push(crate::screen::clear_terminal());
        let cmds = match self.build_window(opt) {
            Ok(c) => c,
            Err(e) => {
                return Err(e);
            },
        };
        Ok(EventOutcome { cmds, term, notify: false })
    }

    /// Route one keyboard event: rebuild on a resize or a repaint request,
    /// move the focus on left and right, scroll the focused pane on the
    /// movement keys, and treat any other key as a bare wake-up request.
    /// Scrolls and wake-ups ask the shell to notify the repaint tasks.
    pub fn parse_event(&mut self, key: Key, term_lines: usize, term_cols: usize, opt: &Opt) -> (res:
        Result<EventOutcome, Error>)
        requires
            old(self).wf(),
            old(self).v@.len() > 0,
        ensures
            final(self).wf(),
            final(self).interrupted == old(self).interrupted,
            res is Err ==> res->Err_0 == Error::BadLayout,
            ({
                let off0 = old(self).v@[old(self).ci as int].offset as int;
                let max0 = old(self).v@[old(self).ci as int].buffer.maxline as int;
                let page = page_delta(old(self).attr.lines as int);
                &&& (key == Key::Idle ==> res is Ok && unchanged_sem(*old(self), *final(self))
                    && res->Ok_0.cmds@.len() == 0 && res->Ok_0.term@.len() == 0
                    && !res->Ok_0.notify)
                &&& ((key == Key::Resize || key == Key::Char(12)) ==> {
                    &&& final(self).attr.lines == term_lines
                    &&& final(self).attr.cols == term_cols
                    &&& final(self).attr.color_attr == old(self).attr.color_attr
                    &&& final(self).attr.standout_attr == old(self).attr.standout_attr
                    &&& (res is Ok <==> opt.layout@.len() > 0 && crate::layout::grid_fits(
                        grid_of(term_lines as int, term_cols as int, opt.layout@, opt.rotatecol),
                    ))
                    &&& (res is Err ==> untouched_but_panes(
                        resized_pre(*old(self), term_lines, term_cols),
                        *final(self),
                    ))
                    &&& (res is Ok ==> grid_built(
                        resized_pre(*old(self), term_lines, term_cols),
                        *final(self),
                        grid_of(
                            term_lines as int,
                            term_cols as int,
                            opt.layout@,
                            opt.rotatecol,
                        ),
                        res->Ok_0.cmds@,
                    ) && res->Ok_0.term@ =~= seq![TermOp::Clear] && !res->Ok_0.notify)
                })
                &&& ((key == Key::Left || key == Key::Char(104)) ==> res is Ok && prev_moved(
                    *old(self),
                    *final(self),
                    res->Ok_0.cmds@,
                ) && res->Ok_0.term@.len() == 0 && !res->Ok_0.notify)
                &&& ((key == Key::Right || key == Key::Char(108)) ==> res is Ok && next_moved(
                    *old(self),
                    *final(self),
                    res->Ok_0.cmds@,
                ) && res->Ok_0.term@.len() == 0 && !res->Ok_0.notify)
                &&& (key == Key::Char(48) ==> res is Ok && scrolled_to(
                    *old(self),
                    *final(self),
                    0,
                ) && res->Ok_0.cmds@.len() == 0 && res->Ok_0.term@.len() == 0
                    && res->Ok_0.notify)
                &&& (key == Key::Char(36) ==> res is Ok && scrolled_to(
                    *old(self),
                    *final(self),
                    max0,
                ) && res->Ok_0.cmds@.len() == 0 && res->Ok_0.term@.len() == 0
                    && res->Ok_0.notify)
                &&& ((key == Key::Up || key == Key::Char(107)) ==> res is Ok && scrolled_to(
                    *old(self),
                    *final(self),
                    clamp_offset(off0, -1, max0),
                ) && res->Ok_0.notify)
                &&& ((key == Key::Down || key == Key::Char(106)) ==> res is Ok && scrolled_to(
                    *old(self),
                    *final(self),
                    clamp_offset(off0, 1, max0),
                ) && res->Ok_0.notify)
                &&& (key == Key::Char(2) ==> res is Ok && scrolled_to(
                    *old(self),
                    *final(self),
                    clamp_offset(off0, -page, max0),
                ) && res->Ok_0.notify)
                &&& (key == Key::Char(21) ==> res is Ok && scrolled_to(
                    *old(self),
                    *final(self),
                    clamp_offset(off0, -(page / 2), max0),
                ) && res->Ok_0.notify)
                &&& (key == Key::Char(6) ==> res is Ok && scrolled_to(
                    *old(self),
                    *final(self),
                    clamp_offset(off0, page, max0),
                ) && res->Ok_0.notify)
                &&& (key == Key::Char(4) ==> res is Ok && scrolled_to(
                    *old(self),
                    *final(self),
                    clamp_offset(off0, page / 2, max0),
                ) && res->Ok_0.notify)
                &&& (forall|c: u32|
                    key == Key::Char(c) && c != 12 && c != 104 && c != 108 && c != 48 && c != 36
                        && c != 107 && c != 106 && c != 2 && c != 21 && c != 6 && c != 4
                        ==> res is Ok && unchanged_sem(*old(self), *final(self))
                        && res->Ok_0.cmds@.len() == 0 && res->Ok_0.term@.len() == 0
                        && res->Ok_0.notify)
            }),
    {
        let lines = self.attr.get_terminal_lines();
        let l: isize = if lines > (isize::MAX as usize) {
            isize::MAX
        } else {
            lines as isize
        };
        match key {
            Key::Idle => Ok(
                EventOutcome { cmds: Vec::new(), term: Vec::new(), notify: false },
            ),
            Key::Resize => self.rebuild(term_lines, term_cols, opt),
            Key::Left => {
                let cmds = self.goto_prev_window();
                Ok(EventOutcome { cmds, term: Vec::new(), notify: false })
            },
            Key::Right => {
                let cmds = self.goto_next_window();
                Ok(EventOutcome { cmds, term: Vec::new(), notify: false })
            },
            Key::Up => Ok(self.do_scroll(-1)),
            Key::Down => Ok(self.do_scroll(1)),
            Key::Char(c) => {
                if c == 12 {
                    self.rebuild(term_lines, term_cols, opt)
                } else if c == 104 {
                    let cmds = self.goto_prev_window();
                    Ok(EventOutcome { cmds, term: Vec::new(), notify: false })
                } else if c == 108 {
                    let cmds = self.goto_next_window();
                    Ok(EventOutcome { cmds, term: Vec::new(), notify: false })
                } else if c == 48 {
                    let ci = self.ci;
                    (&mut self.v[ci]).goto_head();
                    proof {
                        assert forall|i: int|
                            0 <= i < self.v@.len() implies (#[trigger] self.v@[i]).wf() by {
                            if i != ci as int {
                                assert(self.v@[i] == old(self).v@[i]);
                            }
                            assert(old(self).v@[i].wf());
                        }
                    }
                    Ok(EventOutcome { cmds: Vec::new(), term: Vec::new(), notify: true })
                } else if c == 36 {
                    let ci = self.ci;
                    (&mut self.v[ci]).goto_tail();
                    proof {
                        assert forall|i: int|
                            0 <= i < self.v@.len() implies (#[trigger] self.v@[i]).wf() by {
                            if i != ci as int {
                                assert(self.v@[i] == old(self).v@[i]);
                            }
                            assert(old(self).v@[i].wf());
                        }
                    }
                    Ok(EventOutcome { cmds: Vec::new(), term: Vec::new(), notify: true })
                } else if c == 107 {
                    Ok(self.do_scroll(-1))
                } else if c == 106 {
                    Ok(self.do_scroll(1))
                } else if c == 2 {
                    Ok(self.do_scroll(-l))
                } else if c == 21 {
                    Ok(self.do_scroll(-(l / 2)))
                } else if c == 6 {
                    Ok(self.do_scroll(l))
                } else if c == 4 {
                    Ok(self.do_scroll(l / 2))
                } else {
                    Ok(EventOutcome { cmds: Vec::new(), term: Vec::new(), notify: true })
                }
            },
        }
    }

    /// Build the registry once: lay the grid out, attach each named file to
    /// the pane of its position — files that could not be read leave their
    /// pane dead — record the live panes in order, and focus the first live
    /// pane, or none when no file attached.  Succeeds if and only if the
    /// layout is non-empty and every grid rectangle can carry a bordered
    /// window.
    pub fn init(&mut self, files: &Vec<FileEntry>, opt: &Opt) -> (res: Result<Vec<DrawCmd>, Error>)
        requires
            old(self).wf(),
            old(self).v@.len() == 0,
            old(self).biv@.len() == 0,
            old(self).wih@.len() == 0,
            old(self).ci == 0,
        ensures
            final(self).wf(),
            res is Ok <==> opt.layout@.len() > 0 && crate::layout::grid_fits(
                grid_of(
                    old(self).attr.lines as int,
                    old(self).attr.cols as int,
                    opt.layout@,
                    opt.rotatecol,
                ),
            ),
            res is Err ==> res->Err_0 == Error::BadLayout && untouched_but_panes(
                *old(self),
                *final(self),
            ),
            res is Ok ==> final(self).interrupted == old(self).interrupted && init_sem(
                files@,
                old(self).attr,
                opt.layout@,
                opt.rotatecol,
                *final(self),
                res->Ok_0@,
            ),
    {
        let ghost pre = *old(self);
        let mut out = match self.build_window(opt) {
            Ok(c) => c,
            Err(e) => {
                return Err(e);
            },
        };
        proof {
            crate::layout::lemma_layout_tiling(
                pre.attr.lines as int,
                pre.attr.cols as int,
                opt.layout@,
                opt.rotatecol,
            );
            lemma_panes_total_pos(opt.layout@);
        }
        let ghost grid = grid_of(
            pre.attr.lines as int,
            pre.attr.cols as int,
            opt.layout@,
            opt.rotatecol,
        );
        let n = self.v.len();
        let m = files.len();
        proof {
            assert(n == grid.len());
            assert forall|k: int|
                0 <= k < n implies pane_geometry(#[trigger] self.v@[k], grid[k]) by {
                assert(pane_fits(pre, *self, grid, k));
            }
            assert forall|k: int| 0 <= k < n implies !(#[trigger] self.v@[k]).frame.focus by {
                assert(pane_fits(pre, *self, grid, k));
            }
            assert forall|k: int|
                0 <= k < n implies !(#[trigger] self.v@[k]).buffer.alive && self.v@[
                k
            ].frame.title@ == Seq::<u8>::empty() by {
                assert(pane_fits(pre, *self, grid, k));
            }
            assert(live_upto(files@, n as int, 0) =~= self.biv@);
            assert forall|k: int| 0 <= k < n implies fresh_cmds(
                (#[trigger] self.v@[k]).frame.ylen,
                self.v@[k].frame.xlen,
                self.v@[k].frame.ypos,
                self.v@[k].frame.xpos,
                pre.attr,
                out@.subrange(7 * k, 7 * k + 7),
            ) by {
                assert(seg_start(0, n as int, k) == 7 * k);
                assert(seg_start(0, n as int, k + 1) == 7 * k + 7);
            }
            assert(out@.len() == 7 * n) by {
                assert(seg_start(0, n as int, n as int) == 7 * n);
            }
        }
        for j in 0..m
            invariant
                pre == *old(self),
                self.panes_ok(),
                n == self.v@.len(),
                n == grid.len(),
                n >= 1,
                m == files@.len(),
                forall|k: int| 0 <= k < n ==> pane_geometry(#[trigger] self.v@[k], grid[k]),
                self.biv@ == live_upto(files@, n as int, j as int),
                self.ci == 0,
                self.wih@.len() == 0,
                self.attr == pre.attr,
                self.interrupted == pre.interrupted,
                forall|i: int|
                    0 <= i < m && i < n && i < j && files@[i].content is Some ==> {
                        &&& (#[trigger] self.v@[i]).buffer.alive
                        &&& self.v@[i].buffer.lines_view() == lines_of(files@[i].content->0@)
                        &&& self.v@[i].buffer.maxline == lines_of(files@[i].content->0@).len()
                        &&& self.v@[i].frame.title@ == files@[i].path@
                    },
                forall|k: int|
                    0 <= k < n && (k >= j || files@[k].content is None) ==> {
                        &&& !(#[trigger] self.v@[k]).buffer.alive
                        &&& self.v@[k].frame.title@ == Seq::<u8>::empty()
                    },
                forall|k: int| 0 <= k < n ==> !(#[trigger] self.v@[k]).frame.focus,
                forall|c: int| 0 <= c < out@.len() ==> (#[trigger] out@[c]).pane < n,
                out@.len() == 7 * n + 2 * live_upto(files@, n as int, j as int).len(),
                forall|k: int|
                    0 <= k < n ==> fresh_cmds(
                        (#[trigger] self.v@[k]).frame.ylen,
                        self.v@[k].frame.xlen,
                        self.v@[k].frame.ypos,
                        self.v@[k].frame.xpos,
                        pre.attr,
                        out@.subrange(7 * k, 7 * k + 7),
                    ),
                attach_segs(files@, n as int, live_upto(files@, n as int, j as int), out@),
        {
            let has_content = files[j].content.is_some();
            if has_content && j < n {
                let ghost snap = *self;
                let path_ref = &files[j].path;
                let wcmds = match (&mut self.v[j]).attach_buffer(
                    path_ref.as_slice(),
                    match &files[j].content {
                        Some(c) => c.as_slice(),
                        None => {
                            proof {
                                assert(false);
                            }
                            path_ref.as_slice()
                        },
                    },
                ) {
                    Ok(c) => c,
                    Err(_) => {
                        proof {
                            assert(false);
                        }
                        return Err(Error::BadLayout);
                    },
                };
                let ghost old_out = out@;
                wrap_draw(j, wcmds, &mut out);
                self.biv.push(j);
                proof {
                    assert(self.biv@ =~= live_upto(files@, n as int, j + 1));
                    lemma_live_upto_sorted(files@, n as int, j + 1);
                    let live1 = live_upto(files@, n as int, j + 1);
                    assert forall|k: int| 0 <= k < n implies fresh_cmds(
                        (#[trigger] self.v@[k]).frame.ylen,
                        self.v@[k].frame.xlen,
                        self.v@[k].frame.ypos,
                        self.v@[k].frame.xpos,
                        pre.attr,
                        out@.subrange(7 * k, 7 * k + 7),
                    ) by {
                        assert(out@.subrange(7 * k, 7 * k + 7) =~= old_out.subrange(
                            7 * k,
                            7 * k + 7,
                        ));
                        if k != j as int {
                            assert(self.v@[k] == snap.v@[k]);
                        }
                    }
                    let live0 = live_upto(files@, n as int, j as int);
                    assert(live1 =~= live0.push(j));
                    assert(!snap.v@[j as int].frame.focus);
                    assert(attach_segs(files@, n as int, live0, old_out));
                    assert forall|a: int| 0 <= a < live1.len() implies attach_cmds(
                        (#[trigger] live1[a]),
                        files@[live1[a] as int].path@,
                        out@.subrange(7 * n + 2 * a, 7 * n + 2 * a + 2),
                    ) by {
                        if a < live1.len() - 1 {
                            assert(live1[a] == live0[a]);
                            assert(attach_cmds(
                                live0[a],
                                files@[live0[a] as int].path@,
                                old_out.subrange(7 * n + 2 * a, 7 * n + 2 * a + 2),
                            ));
                            assert(out@.subrange(7 * n + 2 * a, 7 * n + 2 * a + 2)
                                =~= old_out.subrange(7 * n + 2 * a, 7 * n + 2 * a + 2));
                        } else {
                            assert(live1[a] == j);
                            assert(a == live0.len());
                            assert(7 * n + 2 * a == old_out.len());
                            let seg = out@.subrange(7 * n + 2 * a, 7 * n + 2 * a + 2);
                            assert(seg.len() == 2);
                            assert(seg[0] == out@[old_out.len() as int]);
                            assert(seg[1] == out@[old_out.len() as int + 1]);
                            assert(attach_cmds(j, files@[j as int].path@, seg));
                        }
                    }
                    assert(attach_segs(files@, n as int, live1, out@));
                    assert forall|k: int|
                        0 <= k < n implies pane_geometry(#[trigger] self.v@[k], grid[k]) by {
                        if k != j as int {
                            assert(self.v@[k] == snap.v@[k]);
                        }
                        assert(pane_geometry(snap.v@[k], grid[k]));
                    }
                }
            } else {
                proof {
                    assert(live_upto(files@, n as int, j + 1) =~= live_upto(
                        files@,
                        n as int,
                        j as int,
                    ));
                }
            }
        }
        let a = self.attr.get_standout_attr();
        if self.biv.len() > 0 {
            let target = self.biv[0];
            self.ci = target;
            let ghost before_focus = *self;
            let ghost out_before_focus = out@;
            let fcmds = (&mut self.v[target]).focus(true, a);
            wrap_draw(target, fcmds, &mut out);
            proof {
                let live = live_upto(files@, n as int, m as int);
                lemma_live_upto_sorted(files@, n as int, m as int);
                lemma_find_pos_of_elem(self.biv@, 0);
                assert(focus_cmds(
                    target,
                    before_focus.v@[target as int].frame.title@,
                    pre.attr.standout_attr,
                    out@.subrange(out@.len() - 2, out@.len() as int),
                )) by {
                    assert(out@.subrange(out@.len() - 2, out@.len() as int) =~= out@.subrange(
                        out_before_focus.len() as int,
                        out@.len() as int,
                    ));
                }
                assert forall|k: int| 0 <= k < n implies fresh_cmds(
                    (#[trigger] self.v@[k]).frame.ylen,
                    self.v@[k].frame.xlen,
                    self.v@[k].frame.ypos,
                    self.v@[k].frame.xpos,
                    pre.attr,
                    out@.subrange(7 * k, 7 * k + 7),
                ) by {
                    assert(out@.subrange(7 * k, 7 * k + 7) =~= out_before_focus.subrange(
                        7 * k,
                        7 * k + 7,
                    ));
                    if k != target as int {
                        assert(self.v@[k] == before_focus.v@[k]);
                    }
                }
                assert(attach_segs(files@, n as int, live, out_before_focus));
                assert forall|aa: int| 0 <= aa < live.len() implies attach_cmds(
                    (#[trigger] live[aa]),
                    files@[live[aa] as int].path@,
                    out@.subrange(7 * n + 2 * aa, 7 * n + 2 * aa + 2),
                ) by {
                    assert(attach_cmds(
                        live[aa],
                        files@[live[aa] as int].path@,
                        out_before_focus.subrange(7 * n + 2 * aa, 7 * n + 2 * aa + 2),
                    ));
                    assert(out@.subrange(7 * n + 2 * aa, 7 * n + 2 * aa + 2)
                        =~= out_before_focus.subrange(7 * n + 2 * aa, 7 * n + 2 * aa + 2));
                }
                assert(attach_segs(files@, n as int, live, out@));
                assert forall|k: int|
                    0 <= k < n implies pane_geometry(#[trigger] self.v@[k], grid[k]) by {
                    if k != target as int {
                        assert(self.v@[k] == before_focus.v@[k]);
                    }
                    assert(pane_geometry(before_focus.v@[k], grid[k]));
                }
                assert forall|i: int| 0 <= i < self.v@.len() implies (#[trigger] self.v@[i]).wf()
                by {
                    if i != target as int {
                        assert(self.v@[i] == before_focus.v@[i]);
                    }
                    assert(before_focus.v@[i].wf());
                }
                assert(live_upto(files@, n as int, m as int) =~= self.biv@);
            }
        } else {
            proof {
                assert(live_upto(files@, n as int, m as int) =~= self.biv@);
            }
        }
        Ok(out)
    }

    /// A freshly built registry for the given files, options and screen.
    /// Succeeds if and only if the layout is non-empty and every grid
    /// rectangle of the given terminal can carry a bordered window.
    pub fn new(files: &Vec<FileEntry>, attr: Attr, opt: &Opt) -> (res: Result<
        (Container, Vec<DrawCmd>),
        Error,
    >)
        ensures
            res is Ok <==> opt.layout@.len() > 0 && crate::layout::grid_fits(
                grid_of(attr.lines as int, attr.cols as int, opt.layout@, opt.rotatecol),
            ),
            res is Err ==> res->Err_0 == Error::BadLayout,
            res is Ok ==> res->Ok_0.0.wf() && !res->Ok_0.0.interrupted && init_sem(
                files@,
                attr,
                opt.layout@,
                opt.rotatecol,
                res->Ok_0.0,
                res->Ok_0.1@,
            ),
    {
        let mut co = Container::empty(attr);
        let cmds = match co.init(files, opt) {
            Ok(c) => c,
            Err(e) => {
                return Err(e);
            },
        };
        Ok((co, cmds))
    }
}

} // verus!
