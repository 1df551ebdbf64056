//! Byte-level text helpers for the line buffer and the repaint algorithm:
//! splitting file content into lines, escaping percent signs for the print
//! primitive, decimal line numbers, and clipping to a pane width.

use vstd::prelude::*;

verus! {

/// The line feed byte that terminates a line.
pub const NL: u8 = 0x0a;

/// The percent byte, doubled before printing.
pub const PCT: u8 = 0x25;

/// The view of a vector of byte vectors.
pub open spec fn bytes_view(v: Seq<Vec<u8>>) -> Seq<Seq<u8>> {
    v.map_values(|x: Vec<u8>| x@)
}

/// Index of the first line feed in `c`, or `c.len()` when there is none.
pub open spec fn first_nl(c: Seq<u8>) -> nat
    decreases c.len(),
{
    if c.len() == 0 {
        0
    } else if c[0] == NL {
        0
    } else {
        1 + first_nl(c.drop_first())
    }
}

pub proof fn lemma_first_nl_le_len(c: Seq<u8>)
    ensures
        first_nl(c) <= c.len(),
    decreases c.len(),
{
    if c.len() != 0 && c[0] != NL {
        lemma_first_nl_le_len(c.drop_first());
    }
}

/// The first line feed is exactly at `m`: nothing before it is one, and
/// either `m` is the end of the content or a line feed stands there.
pub proof fn lemma_first_nl_at(c: Seq<u8>, m: int)
    requires
        0 <= m <= c.len(),
        forall|k: int| 0 <= k < m ==> c[k] != NL,
        m < c.len() ==> c[m] == NL,
    ensures
        first_nl(c) == m,
    decreases c.len(),
{
    if c.len() != 0 && c[0] != NL {
        lemma_first_nl_at(c.drop_first(), m - 1);
    }
}

/// The lines of a byte content, split at line feeds, feeds stripped.  A last
/// segment with no terminator counts only when it is not empty, as when a
/// reader pulls lines off a stream until a read returns nothing.
pub open spec fn lines_of(c: Seq<u8>) -> Seq<Seq<u8>>
    decreases c.len(),
{
    if c.len() == 0 {
        Seq::empty()
    } else {
        let i = first_nl(c) as int;
        if i >= c.len() {
            seq![c]
        } else {
            seq![c.take(i)] + lines_of(c.skip(i + 1))
        }
    }
}

/// Splitting distributes over appending to content whose last line is
/// terminated: the new content only adds lines.
pub proof fn lemma_lines_append(c1: Seq<u8>, c2: Seq<u8>)
    requires
        c1.len() > 0 ==> c1.last() == NL,
    ensures
        lines_of(c1 + c2) == lines_of(c1) + lines_of(c2),
    decreases c1.len(),
{
    if c1.len() == 0 {
        assert(c1 + c2 =~= c2);
        assert(lines_of(c1) + lines_of(c2) =~= lines_of(c2));
    } else {
        let c = c1 + c2;
        lemma_first_nl_head(c1);
        let i = first_nl(c1) as int;
        // c1 ends with a line feed, so the first line feed of the whole
        // content is the first line feed of c1
        assert(i < c1.len()) by {
            if i == c1.len() {
                assert(c1[c1.len() - 1] != NL);
            }
        }
        assert forall|k: int| 0 <= k < i implies c[k] != NL by {
            assert(c[k] == c1[k]);
        }
        lemma_first_nl_at(c, i);
        assert(c.take(i) =~= c1.take(i));
        assert(c.skip(i + 1) =~= c1.skip(i + 1) + c2);
        lemma_lines_append(c1.skip(i + 1), c2);
        assert(c1.skip(i + 1).len() > 0 ==> c1.skip(i + 1).last() == NL);
        assert(lines_of(c1) == seq![c1.take(i)] + lines_of(c1.skip(i + 1)));
        assert(seq![c.take(i)] + (lines_of(c1.skip(i + 1)) + lines_of(c2)) =~= (seq![c1.take(i)]
            + lines_of(c1.skip(i + 1))) + lines_of(c2));
    }
}

/// Everything before the first line feed is not a line feed, and the first
/// line feed, when inside the content, is one.
proof fn lemma_first_nl_head(c: Seq<u8>)
    ensures
        first_nl(c) <= c.len(),
        forall|k: int| 0 <= k < first_nl(c) ==> c[k] != NL,
        first_nl(c) < c.len() ==> c[first_nl(c) as int] == NL,
    decreases c.len(),
{
    lemma_first_nl_le_len(c);
    if c.len() != 0 && c[0] != NL {
        lemma_first_nl_head(c.drop_first());
        assert forall|k: int| 0 <= k < first_nl(c) implies c[k] != NL by {
            if k > 0 {
                assert(c[k] == c.drop_first()[k - 1]);
                assert(c.drop_first()[k - 1] != NL);
            }
        }
        if first_nl(c) < c.len() {
            assert(c[first_nl(c) as int] == c.drop_first()[first_nl(c.drop_first()) as int]);
        }
    }
}

/// Split byte content into its lines.
pub fn split_lines(content: &[u8]) -> (res: Vec<Vec<u8>>)
    ensures
        bytes_view(res@) == lines_of(content@),
{
    let n = content.len();
    let mut out: Vec<Vec<u8>> = Vec::new();
    let mut cur: Vec<u8> = Vec::new();
    let mut start: usize = 0;
    let mut i: usize = 0;
    proof {
        assert(content@.skip(0) =~= content@);
        assert(bytes_view(out@) =~= Seq::<Seq<u8>>::empty());
        assert(bytes_view(out@) + lines_of(content@.skip(0)) =~= lines_of(content@));
    }
    while i < n
        invariant
            n == content@.len(),
            start <= i <= n,
            cur@ == content@.subrange(start as int, i as int),
            forall|k: int| start <= k < i ==> content@[k] != NL,
            bytes_view(out@) + lines_of(content@.skip(start as int)) == lines_of(content@),
        decreases n - i,
    {
        let b = content[i];
        if b == NL {
            proof {
                let rest = content@.skip(start as int);
                assert forall|k: int| 0 <= k < i - start implies rest[k] != NL by {
                    assert(rest[k] == content@[start + k]);
                }
                assert(rest[i - start] == NL);
                lemma_first_nl_at(rest, i - start);
                assert(rest.take(i - start) =~= cur@);
                assert(rest.skip(i - start + 1) =~= content@.skip(i + 1));
                assert(lines_of(rest) == seq![cur@] + lines_of(content@.skip(i + 1)));
            }
            let ghost old_out = out@;
            let ghost curv = cur@;
            out.push(cur);
            cur = Vec::new();
            proof {
                assert(bytes_view(out@) =~= bytes_view(old_out).push(curv));
                assert(bytes_view(out@) + lines_of(content@.skip(i + 1)) =~= lines_of(content@));
            }
            start = i + 1;
        } else {
            cur.push(b);
            proof {
                assert(cur@ =~= content@.subrange(start as int, i + 1));
            }
        }
        i = i + 1;
    }
    if cur.len() > 0 {
        proof {
            let rest = content@.skip(start as int);
            assert forall|k: int| 0 <= k < rest.len() implies rest[k] != NL by {
                assert(rest[k] == content@[start + k]);
            }
            lemma_first_nl_at(rest, rest.len() as int);
            assert(rest =~= cur@);
            assert(lines_of(rest) =~= seq![cur@]);
        }
        let ghost old_out = out@;
        let ghost curv = cur@;
        out.push(cur);
        proof {
            assert(bytes_view(out@) =~= bytes_view(old_out).push(curv));
            assert(bytes_view(out@) =~= lines_of(content@));
        }
    } else {
        proof {
            let rest = content@.skip(start as int);
            assert(rest =~= cur@);
            assert(lines_of(rest) =~= Seq::<Seq<u8>>::empty());
            assert(bytes_view(out@) =~= lines_of(content@));
        }
    }
    out
}

/// A percent byte turns into two; every other byte stands as it is.
pub open spec fn escape_byte(b: u8) -> Seq<u8> {
    if b == PCT {
        seq![PCT, PCT]
    } else {
        seq![b]
    }
}

/// The line with every percent sign doubled, as the print primitive wants it.
pub open spec fn escape_pct(s: Seq<u8>) -> Seq<u8>
    decreases s.len(),
{
    if s.len() == 0 {
        Seq::empty()
    } else {
        escape_byte(s.first()) + escape_pct(s.drop_first())
    }
}

pub proof fn lemma_escape_pct_snoc(s: Seq<u8>, b: u8)
    ensures
        escape_pct(s.push(b)) == escape_pct(s) + escape_byte(b),
    decreases s.len(),
{
    if s.len() == 0 {
        assert(s.push(b).first() == b);
        assert(s.push(b).drop_first() =~= Seq::<u8>::empty());
        assert(escape_pct(s.push(b).drop_first()) =~= Seq::<u8>::empty());
        assert(escape_pct(s.push(b)) =~= escape_byte(b));
        assert(escape_pct(s) + escape_byte(b) =~= escape_byte(b));
    } else {
        assert(s.push(b).first() == s.first());
        assert(s.push(b).drop_first() =~= s.drop_first().push(b));
        lemma_escape_pct_snoc(s.drop_first(), b);
        assert(escape_byte(s.first()) + (escape_pct(s.drop_first()) + escape_byte(b))
            =~= (escape_byte(s.first()) + escape_pct(s.drop_first())) + escape_byte(b));
    }
}

/// Double every percent sign in a line.
pub fn escape_percent(s: &[u8]) -> (res: Vec<u8>)
    ensures
        res@ == escape_pct(s@),
{
    let mut out: Vec<u8> = Vec::new();
    proof {
        assert(s@.take(0) =~= Seq::<u8>::empty());
        assert(out@ =~= escape_pct(s@.take(0)));
    }
    for i in 0..s.len()
        invariant
            out@ == escape_pct(s@.take(i as int)),
    {
        let b = s[i];
        if b == PCT {
            out.push(PCT);
            out.push(PCT);
        } else {
            out.push(b);
        }
        proof {
            assert(s@.take(i + 1) =~= s@.take(i as int).push(s@[i as int]));
            lemma_escape_pct_snoc(s@.take(i as int), s@[i as int]);
            assert(out@ =~= escape_pct(s@.take(i as int)) + escape_byte(s@[i as int]));
        }
    }
    proof {
        assert(s@.take(s@.len() as int) =~= s@);
    }
    out
}

/// How often byte `b` occurs in `s`.
pub open spec fn count_byte(s: Seq<u8>, b: u8) -> int
    decreases s.len(),
{
    if s.len() == 0 {
        0
    } else {
        count_byte(s.drop_first(), b) + if s.first() == b {
            1int
        } else {
            0int
        }
    }
}

/// Escaping doubles the percent signs of a line, and exactly once: the
/// escaped text carries two percent bytes for each original one, and no
/// other byte of the line is touched.  Nothing downstream of the escape
/// touches percent signs again, so a line is never escaped twice.
pub proof fn lemma_percent_doubled(s: Seq<u8>)
    ensures
        count_byte(escape_pct(s), PCT) == 2 * count_byte(s, PCT),
    decreases s.len(),
{
    if s.len() > 0 {
        reveal_with_fuel(count_byte, 4);
        lemma_percent_doubled(s.drop_first());
        lemma_count_concat(escape_byte(s.first()), escape_pct(s.drop_first()), PCT);
        assert(seq![PCT, PCT].drop_first() =~= seq![PCT]);
        assert(seq![PCT].drop_first() =~= Seq::<u8>::empty());
        assert(count_byte(seq![PCT], PCT) == 1);
        assert(count_byte(seq![PCT, PCT], PCT) == 2);
        if s.first() != PCT {
            assert(seq![s.first()].drop_first() =~= Seq::<u8>::empty());
            assert(count_byte(seq![s.first()], PCT) == 0);
        }
    }
}

proof fn lemma_count_concat(a: Seq<u8>, b: Seq<u8>, x: u8)
    ensures
        count_byte(a + b, x) == count_byte(a, x) + count_byte(b, x),
    decreases a.len(),
{
    if a.len() == 0 {
        assert(a + b =~= b);
    } else {
        assert((a + b).drop_first() =~= a.drop_first() + b);
        assert((a + b).first() == a.first());
        lemma_count_concat(a.drop_first(), b, x);
    }
}

/// The decimal digits of `n`, most significant first.
pub open spec fn dec_spec(n: nat) -> Seq<u8>
    decreases n,
{
    if n < 10 {
        seq![(0x30 + n) as u8]
    } else {
        dec_spec(n / 10).push((0x30 + n % 10) as u8)
    }
}

/// Render `n` in decimal.
pub fn to_decimal(n: usize) -> (res: Vec<u8>)
    ensures
        res@ == dec_spec(n as nat),
{
    let mut tmp: Vec<u8> = Vec::new();
    let mut m = n;
    proof {
        assert(tmp@.reverse() =~= Seq::<u8>::empty());
        assert(dec_spec(n as nat) + Seq::<u8>::empty() =~= dec_spec(n as nat));
    }
    loop
        invariant_except_break
            dec_spec(n as nat) == dec_spec(m as nat) + tmp@.reverse(),
        ensures
            dec_spec(n as nat) == tmp@.reverse(),
        decreases m,
    {
        let ghost m0 = m as nat;
        let ghost old_tmp = tmp@;
        let d = (0x30 + m % 10) as u8;
        tmp.push(d);
        m = m / 10;
        proof {
            assert(tmp@.reverse() =~= seq![d] + old_tmp.reverse());
            if m0 < 10 {
                assert(dec_spec(m0) =~= seq![d]);
                assert(dec_spec(n as nat) =~= tmp@.reverse());
            } else {
                assert(dec_spec(m0) == dec_spec(m0 / 10).push(d));
                assert(dec_spec((m0 / 10)).push(d) + old_tmp.reverse() =~= dec_spec((m0 / 10))
                    + (seq![d] + old_tmp.reverse()));
                assert(dec_spec(n as nat) == dec_spec(m as nat) + tmp@.reverse());
            }
        }
        if m == 0 {
            break;
        }
    }
    let mut out: Vec<u8> = Vec::new();
    let k = tmp.len();
    proof {
        assert(out@ =~= tmp@.reverse().take(0));
    }
    for i in 0..k
        invariant
            k == tmp@.len(),
            out@ == tmp@.reverse().take(i as int),
    {
        out.push(tmp[k - 1 - i]);
        proof {
            assert(out@ =~= tmp@.reverse().take(i + 1));
        }
    }
    proof {
        assert(tmp@.reverse().take(k as int) =~= tmp@.reverse());
    }
    out
}

/// A line clipped to width `w`: longer lines lose their tail, shorter ones
/// stand whole.
pub open spec fn clip_spec(s: Seq<u8>, w: int) -> Seq<u8> {
    if s.len() > w {
        s.take(w)
    } else {
        s
    }
}

/// Clip a line to a pane width.
pub fn clip_bytes(s: &Vec<u8>, w: usize) -> (res: Vec<u8>)
    ensures
        res@ == clip_spec(s@, w as int),
{
    let n = if s.len() > w {
        w
    } else {
        s.len()
    };
    let mut out: Vec<u8> = Vec::new();
    proof {
        assert(out@ =~= s@.take(0));
    }
    for i in 0..n
        invariant
            n <= s@.len(),
            out@ == s@.take(i as int),
        decreases n - i,
    {
        out.push(s[i]);
        proof {
            assert(out@ =~= s@.take(i + 1));
        }
    }
    proof {
        if s@.len() > w {
            assert(out@ == s@.take(w as int));
        } else {
            assert(s@.take(s@.len() as int) =~= s@);
        }
    }
    out
}

/// Are two byte vectors equal, byte for byte?
pub fn bytes_eq(a: &Vec<u8>, b: &Vec<u8>) -> (res: bool)
    ensures
        res == (a@ == b@),
{
    if a.len() != b.len() {
        return false;
    }
    for i in 0..a.len()
        invariant
            a@.len() == b@.len(),
            forall|k: int| 0 <= k < i ==> a@[k] == b@[k],
    {
        if a[i] != b[i] {
            return false;
        }
    }
    proof {
        assert(a@ =~= b@);
    }
    true
}

/// Copy a byte vector.
pub fn copy_bytes(s: &Vec<u8>) -> (res: Vec<u8>)
    ensures
        res@ == s@,
{
    let mut out: Vec<u8> = Vec::new();
    proof {
        assert(out@ =~= s@.take(0));
    }
    for i in 0..s.len()
        invariant
            out@ == s@.take(i as int),
    {
        out.push(s[i]);
        proof {
            assert(out@ =~= s@.take(i + 1));
        }
    }
    proof {
        assert(s@.take(s@.len() as int) =~= s@);
    }
    out
}

} // verus!
