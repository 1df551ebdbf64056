//! The per-file line buffer.
//!
//! A buffer is created dead and becomes live when a file is attached.  It
//! holds the file's lines, a read cursor, the cached line count, and a
//! growable history of previously rendered lines that drives the
//! change-highlighting.  The file itself lives outside: callers hand the
//! buffer the raw byte content at attach time and again at every re-scan.

use vstd::prelude::*;

use crate::text::{
    bytes_eq, bytes_view, copy_bytes, dec_spec, escape_pct, escape_percent, lemma_lines_append,
    lines_of, split_lines, to_decimal, NL,
};
use crate::Error;

verus! {

/// What `read_line` hands back: the line's position, its rendered text, and
/// whether the content differs from the previous pass.
#[derive(Debug, PartialEq, Eq)]
pub struct ReadLine {
    pub pos: usize,
    pub text: Vec<u8>,
    pub changed: bool,
}

/// A line as the pane shows it: escaped, and, on request, prefixed with its
/// 1-based number and a space.
pub open spec fn rendered_line(raw: Seq<u8>, num: int, showlnum: bool) -> Seq<u8> {
    if showlnum {
        dec_spec(num as nat) + seq![0x20u8] + escape_pct(raw)
    } else {
        escape_pct(raw)
    }
}

/// Does the history call line `pos` changed when its fresh escaped content
/// is `esc`?  Only a remembered, non-empty, different line counts.
pub open spec fn line_changed(chunk: Seq<Seq<u8>>, pos: int, esc: Seq<u8>) -> bool {
    &&& 0 <= pos < chunk.len()
    &&& chunk[pos].len() > 0
    &&& chunk[pos] != esc
}

/// One growth step of the history: double plus one, stopping at the largest
/// possible length.
pub open spec fn grow_step(n: nat) -> nat {
    if n < usize::MAX as nat / 2 {
        2 * n + 1
    } else {
        usize::MAX as nat
    }
}

/// The history length after growing a length-`n` history until it covers
/// index `i`.
pub open spec fn grow_target(n: nat, i: nat) -> nat
    decreases (if i < n {
        0nat
    } else {
        (i + 1 - n) as nat
    }),
{
    if i < n {
        n
    } else if n >= usize::MAX as nat {
        n
    } else {
        grow_target(grow_step(n), i)
    }
}

/// A grown history covers the index it grew for.
pub proof fn lemma_grow_target_covers(n: nat, i: nat)
    requires
        i < usize::MAX as nat,
    ensures
        i < grow_target(n, i),
        n <= grow_target(n, i),
    decreases (if i < n {
        0nat
    } else {
        (i + 1 - n) as nat
    }),
{
    if i >= n {
        lemma_grow_target_covers(grow_step(n), i);
    }
}

/// The history after one tracked read of line `pos` with escaped content
/// `esc`: grown to cover `pos` with empty slots, then updated at `pos`.
pub open spec fn chunk_after(chunk: Seq<Seq<u8>>, pos: int, esc: Seq<u8>) -> Seq<Seq<u8>> {
    grown_chunk(chunk, pos).update(pos, esc)
}

/// The history grown to cover index `pos`, new slots empty.
pub open spec fn grown_chunk(chunk: Seq<Seq<u8>>, pos: int) -> Seq<Seq<u8>> {
    if pos < chunk.len() {
        chunk
    } else {
        chunk + Seq::new(
            (grow_target(chunk.len(), pos as nat) - chunk.len()) as nat,
            |j: int| Seq::<u8>::empty(),
        )
    }
}

/// The line-oriented reader over one attached file.
#[derive(Debug)]
pub struct Buffer {
    /// Is a file attached?
    pub alive: bool,
    /// The lines of the attached file, as of the last scan.
    pub lines: Vec<Vec<u8>>,
    /// The read cursor: the 0-based index of the next line to read.
    pub curline: usize,
    /// The cached total line count.
    pub maxline: usize,
    /// Per-line history of previously rendered content, for
    /// change-highlighting.
    pub chunk: Vec<Vec<u8>>,
}

impl Buffer {
    /// The cached line count always matches the lines held, and a dead
    /// buffer holds nothing.
    pub open spec fn wf(self) -> bool {
        &&& self.maxline == self.lines@.len()
        &&& !self.alive ==> self.lines@.len() == 0 && self.curline == 0
    }

    /// The lines of the attached file, as mathematical sequences.
    pub open spec fn lines_view(self) -> Seq<Seq<u8>> {
        bytes_view(self.lines@)
    }

    /// The change history, as mathematical sequences.
    pub open spec fn chunk_view(self) -> Seq<Seq<u8>> {
        bytes_view(self.chunk@)
    }

    /// A fresh buffer: dead, empty, cursor at the start.
    pub fn new() -> (b: Buffer)
        ensures
            b.wf(),
            !b.alive,
            b.curline == 0,
            b.maxline == 0,
            b.lines_view() == Seq::<Seq<u8>>::empty(),
            b.chunk_view() == Seq::<Seq<u8>>::empty(),
    {
        let b = Buffer { alive: false, lines: Vec::new(), curline: 0, maxline: 0, chunk: Vec::new() };
        proof {
            assert(b.lines_view() =~= Seq::<Seq<u8>>::empty());
            assert(b.chunk_view() =~= Seq::<Seq<u8>>::empty());
        }
        b
    }

    /// Attach a file's content.  Fails if and only if a file is already
    /// attached.
    pub fn init(&mut self, content: &[u8]) -> (res: Result<(), Error>)
        requires
            old(self).wf(),
        ensures
            final(self).wf(),
            old(self).alive ==> res == Result::<(), Error>::Err(Error::AlreadyAttached)
                && *final(self) == *old(self),
            !old(self).alive ==> {
                &&& res == Result::<(), Error>::Ok(())
                &&& final(self).alive
                &&& final(self).lines_view() == lines_of(content@)
                &&& final(self).maxline == lines_of(content@).len()
                &&& final(self).curline == 0
                &&& final(self).chunk@ == old(self).chunk@
            },
    {
        if self.alive {
            return Err(Error::AlreadyAttached);
        }
        self.lines = split_lines(content);
        self.maxline = self.lines.len();
        self.alive = true;
        Ok(())
    }

    /// Re-scan: replace the lines with the file's current content and
    /// refresh the line count, keeping the cursor.  A dead buffer ignores
    /// the call.
    pub fn update(&mut self, content: &[u8])
        requires
            old(self).wf(),
        ensures
            final(self).wf(),
            !old(self).alive ==> *final(self) == *old(self),
            old(self).alive ==> {
                &&& final(self).alive
                &&& final(self).lines_view() == lines_of(content@)
                &&& final(self).maxline == lines_of(content@).len()
                &&& final(self).curline == old(self).curline
                &&& final(self).chunk@ == old(self).chunk@
            },
    {
        if self.is_dead() {
            return ;
        }
        self.lines = split_lines(content);
        self.maxline = self.lines.len();
    }

    /// The cached total line count.
    pub fn get_max_line(&self) -> (res: usize)
        ensures
            res == self.maxline,
    {
        self.maxline
    }

    /// A buffer with no file attached is dead.
    pub fn is_dead(&self) -> (res: bool)
        ensures
            res == !self.alive,
    {
        !self.alive
    }

    /// Read the next line at the cursor.  Fails with `EndOfBuffer` at the
    /// end of the lines; a dead buffer fails with `Other`.  On success the
    /// line is escaped, numbered on request, checked against the history
    /// when tracking changes, and the cursor advances by one.
    pub fn readline(&mut self, showlnum: bool, blinkline: bool) -> (res: Result<ReadLine, Error>)
        requires
            old(self).wf(),
        ensures
            final(self).wf(),
            !old(self).alive ==> res == Result::<ReadLine, Error>::Err(Error::Other) && *final(self)
                == *old(self),
            old(self).alive && old(self).curline >= old(self).maxline ==> res == Result::<
                ReadLine,
                Error,
            >::Err(Error::EndOfBuffer) && *final(self) == *old(self),
            old(self).alive && old(self).curline < old(self).maxline ==> {
                &&& res is Ok
                &&& res->Ok_0.pos == old(self).curline
                &&& res->Ok_0.text@ == rendered_line(
                    old(self).lines_view()[old(self).curline as int],
                    old(self).curline + 1,
                    showlnum,
                )
                &&& res->Ok_0.changed == (blinkline && line_changed(
                    old(self).chunk_view(),
                    old(self).curline as int,
                    escape_pct(old(self).lines_view()[old(self).curline as int]),
                ))
                &&& final(self).alive == old(self).alive
                &&& final(self).lines@ == old(self).lines@
                &&& final(self).maxline == old(self).maxline
                &&& final(self).curline == old(self).curline + 1
                &&& blinkline ==> final(self).chunk_view() == chunk_after(
                    old(self).chunk_view(),
                    old(self).curline as int,
                    escape_pct(old(self).lines_view()[old(self).curline as int]),
                )
                &&& !blinkline ==> final(self).chunk@ == old(self).chunk@
            },
    {
        if self.is_dead() {
            return Err(Error::Other);
        }
        let pos = self.curline;
        if pos >= self.maxline {
            return Err(Error::EndOfBuffer);
        }
        let esc = escape_percent(self.lines[pos].as_slice());
        let ghost raw = self.lines_view()[pos as int];
        let ghost chunk0 = self.chunk_view();

        let changed: bool;
        if blinkline {
            self.grow_chunk(pos);
            proof {
                assert(self.chunk_view() =~= grown_chunk(chunk0, pos as int));
                if pos < chunk0.len() {
                    assert(self.chunk_view()[pos as int] == chunk0[pos as int]);
                } else {
                    assert(self.chunk_view()[pos as int] =~= Seq::<u8>::empty());
                }
            }
            changed = self.chunk[pos].len() > 0 && !bytes_eq(&self.chunk[pos], &esc);
            let ghost grown = self.chunk@;
            self.chunk[pos] = copy_bytes(&esc);
            proof {
                assert(self.chunk_view() =~= bytes_view(grown).update(pos as int, esc@));
                assert(self.chunk_view() =~= chunk_after(chunk0, pos as int, escape_pct(raw)));
            }
        } else {
            changed = false;
        }

        let text: Vec<u8>;
        if showlnum {
            let mut t = to_decimal(pos + 1);
            t.push(0x20);
            let mut e = esc;
            t.append(&mut e);
            proof {
                assert(t@ =~= rendered_line(raw, pos + 1, showlnum));
            }
            text = t;
        } else {
            text = esc;
        }
        self.curline = pos + 1;
        Ok(ReadLine { pos, text, changed })
    }

    /// Grow the history by doubling-plus-one until it covers index `pos`,
    /// filling new slots with empty lines.
    fn grow_chunk(&mut self, pos: usize)
        requires
            pos < usize::MAX,
        ensures
            final(self).chunk@.len() == grow_target(old(self).chunk@.len(), pos as nat),
            pos < final(self).chunk@.len(),
            final(self).chunk_view() == grown_chunk(old(self).chunk_view(), pos as int),
            final(self).alive == old(self).alive,
            final(self).lines@ == old(self).lines@,
            final(self).curline == old(self).curline,
            final(self).maxline == old(self).maxline,
    {
        let ghost orig = self.chunk@;
        proof {
            lemma_grow_target_covers(orig.len(), pos as nat);
        }
        while pos >= self.chunk.len()
            invariant
                pos < usize::MAX,
                orig.len() <= self.chunk@.len(),
                grow_target(self.chunk@.len(), pos as nat) == grow_target(orig.len(), pos as nat),
                self.chunk@.len() <= grow_target(orig.len(), pos as nat),
                bytes_view(self.chunk@) == bytes_view(orig) + Seq::new(
                    (self.chunk@.len() - orig.len()) as nat,
                    |j: int| Seq::<u8>::empty(),
                ),
                self.alive == old(self).alive,
                self.lines@ == old(self).lines@,
                self.curline == old(self).curline,
                self.maxline == old(self).maxline,
            decreases grow_target(orig.len(), pos as nat) - self.chunk@.len(),
        {
            let len = self.chunk.len();
            let newlen = if len < usize::MAX / 2 {
                2 * len + 1
            } else {
                usize::MAX
            };
            proof {
                assert(newlen as nat == grow_step(len as nat));
                assert(grow_target(len as nat, pos as nat) == grow_target(
                    newlen as nat,
                    pos as nat,
                ));
                lemma_grow_target_covers(newlen as nat, pos as nat);
            }
            while self.chunk.len() < newlen
                invariant
                    orig.len() <= self.chunk@.len(),
                    self.chunk@.len() <= newlen,
                    bytes_view(self.chunk@) == bytes_view(orig) + Seq::new(
                        (self.chunk@.len() - orig.len()) as nat,
                        |j: int| Seq::<u8>::empty(),
                    ),
                    self.alive == old(self).alive,
                    self.lines@ == old(self).lines@,
                    self.curline == old(self).curline,
                    self.maxline == old(self).maxline,
                decreases newlen - self.chunk@.len(),
            {
                let ghost before = self.chunk@;
                self.chunk.push(Vec::new());
                proof {
                    assert(bytes_view(self.chunk@) =~= bytes_view(before).push(
                        Seq::<u8>::empty(),
                    ));
                    assert(bytes_view(self.chunk@) =~= bytes_view(orig) + Seq::new(
                        (self.chunk@.len() - orig.len()) as nat,
                        |j: int| Seq::<u8>::empty(),
                    ));
                }
            }
        }
        proof {
            let tgt = grow_target(orig.len(), pos as nat);
            if pos < orig.len() {
                // the target is the original length and nothing grew
                assert(tgt == orig.len());
                assert(self.chunk@.len() == orig.len());
                assert(bytes_view(self.chunk@) =~= bytes_view(orig));
                assert(self.chunk_view() =~= grown_chunk(bytes_view(orig), pos as int));
            } else {
                // the loop stopped exactly at the grow target
                assert(grow_target(self.chunk@.len(), pos as nat) == self.chunk@.len());
                assert(self.chunk@.len() == tgt);
                assert(bytes_view(orig).len() == orig.len());
                assert(self.chunk_view() =~= grown_chunk(bytes_view(orig), pos as int));
            }
        }
    }

    /// Rewind the cursor to the first line.  Fails if the buffer is dead.
    pub fn clear(&mut self) -> (res: Result<(), Error>)
        requires
            old(self).wf(),
        ensures
            final(self).wf(),
            !old(self).alive ==> res == Result::<(), Error>::Err(Error::Other) && *final(self)
                == *old(self),
            old(self).alive ==> {
                &&& res == Result::<(), Error>::Ok(())
                &&& final(self).curline == 0
                &&& final(self).alive
                &&& final(self).lines@ == old(self).lines@
                &&& final(self).maxline == old(self).maxline
                &&& final(self).chunk@ == old(self).chunk@
            },
    {
        if self.is_dead() {
            return Err(Error::Other);
        }
        self.curline = 0;
        Ok(())
    }
}

/// Round-trip re-scan: when content whose last line is terminated grows by
/// `M` appended lines, the re-scanned line count is the old count plus `M`,
/// the old lines keep their places, and the lines from the old count onward
/// are exactly the appended ones.  With `read_line`'s contract this says
/// that reading from the old count returns exactly the new lines.
pub proof fn lemma_rescan_append(c1: Seq<u8>, c2: Seq<u8>)
    requires
        c1.len() > 0 ==> c1.last() == NL,
    ensures
        lines_of(c1 + c2).len() == lines_of(c1).len() + lines_of(c2).len(),
        forall|k: int|
            0 <= k < lines_of(c1).len() ==> lines_of(c1 + c2)[k] == lines_of(c1)[k],
        forall|m: int|
            0 <= m < lines_of(c2).len() ==> lines_of(c1 + c2)[lines_of(c1).len() + m]
                == lines_of(c2)[m],
{
    lemma_lines_append(c1, c2);
}

/// Change highlight: reading the same line index twice with identical
/// content reports no change on the second read, while differing non-empty
/// content reports a change.  With tracking off, `read_line`'s contract
/// reports no change at all.
pub proof fn lemma_change_highlight(chunk: Seq<Seq<u8>>, pos: int, e1: Seq<u8>, e2: Seq<u8>)
    requires
        0 <= pos < usize::MAX,
    ensures
        !line_changed(chunk_after(chunk, pos, e1), pos, e1),
        e1.len() > 0 && e2 != e1 ==> line_changed(chunk_after(chunk, pos, e1), pos, e2),
{
    if pos >= chunk.len() {
        lemma_grow_target_covers(chunk.len(), pos as nat);
    }
    assert(chunk_after(chunk, pos, e1)[pos] == e1);
}

} // verus!
