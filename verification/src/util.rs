//! Path helpers: lexical cleanup, absolute paths, base names and joining.
//!
//! The lexical cleanup itself is done by an outside crate behind a trusted
//! wrapper; everything around it — joining, base-name extraction — is
//! verified here.

use vstd::prelude::*;
use vstd::string::{StringExecFns, StrSliceExecFns};

use crate::Error;

verus! {

/// What the lexical path cleanup returns for a path: a function of the
/// path's text alone.
pub uninterp spec fn cleaned_of(s: Seq<char>) -> Seq<char>;

/// Relies on path_clean::clean: the Plan 9 lexical cleanup of a path —
/// collapse slashes, drop `.`, resolve `..` — computed from the path text
/// alone, without touching the filesystem.  The cleaned path is built from
/// components of the input, so it converts back to UTF-8 text without loss.
#[verifier::external_body]
fn clean_path(f: &str) -> (res: String)
    ensures
        res@ == cleaned_of(f@),
{
    path_clean::clean(f).into_os_string().into_string().unwrap_or_default()
}

/// Is the path absolute, that is, rooted at `/`?
pub open spec fn path_is_absolute(s: Seq<char>) -> bool {
    s.len() > 0 && s[0] == '/'
}

/// The absolute form of a path: an absolute path is cleaned as it stands; a
/// relative one is first anchored at the given working directory.  Purely
/// lexical: symlinks are not resolved and the path need not exist.
pub fn get_abspath(f: &str, cwd: &str) -> (res: String)
    ensures
        path_is_absolute(f@) ==> res@ == cleaned_of(f@),
        !path_is_absolute(f@) ==> res@ == cleaned_of(cwd@ + "/"@ + f@),
{
    let n = f.unicode_len();
    if n > 0 && f.get_char(0) == '/' {
        clean_path(f)
    } else {
        let mut joined = String::from_str(cwd);
        joined.append("/");
        joined.append(f);
        clean_path(joined.as_str())
    }
}

/// The final component of a cleaned path, when it names a real component:
/// the text after the last slash, unless that text is empty (the root) or a
/// dot component.
pub open spec fn basename_spec(s: Seq<char>) -> Option<Seq<char>> {
    let t = s.skip(last_slash(s) + 1);
    if t.len() == 0 || t == seq!['.'] || t == seq!['.', '.'] {
        Option::None
    } else {
        Option::Some(t)
    }
}

/// The index of the last slash of `s`, or -1 when there is none.
pub open spec fn last_slash(s: Seq<char>) -> int
    decreases s.len(),
{
    if s.len() == 0 {
        -1
    } else if s.last() == '/' {
        s.len() - 1
    } else {
        last_slash(s.drop_last())
    }
}

proof fn lemma_last_slash_range(s: Seq<char>)
    ensures
        -1 <= last_slash(s) < s.len(),
    decreases s.len(),
{
    if s.len() > 0 && s.last() != '/' {
        lemma_last_slash_range(s.drop_last());
    }
}

proof fn lemma_last_slash_at(s: Seq<char>, m: int)
    requires
        -1 <= m < s.len(),
        m >= 0 ==> s[m] == '/',
        forall|k: int| m < k < s.len() ==> s[k] != '/',
    ensures
        last_slash(s) == m,
    decreases s.len(),
{
    if s.len() > 0 && s.last() != '/' {
        lemma_last_slash_at(s.drop_last(), m);
    }
}

/// The base name of a path: the last component of its absolute, cleaned
/// form.  Fails when the cleaned path has no final component: the root, or
/// a path ending in a dot component.
pub fn get_basename(f: &str, cwd: &str) -> (res: Result<String, Error>)
    ensures
        ({
            let c = if path_is_absolute(f@) {
                cleaned_of(f@)
            } else {
                cleaned_of(cwd@ + "/"@ + f@)
            };
            match basename_spec(c) {
                Option::Some(t) => res is Ok && res->Ok_0@ == t,
                Option::None => res == Result::<String, Error>::Err(Error::NotFound),
            }
        }),
{
    let c = get_abspath(f, cwd);
    let cs = c.as_str();
    let n = cs.unicode_len();
    // find the character position after the last slash
    let mut start: usize = 0;
    let mut i: usize = 0;
    while i < n
        invariant
            n == cs@.len(),
            0 <= start <= i <= n,
            start >= 1 ==> cs@[start - 1] == '/',
            start == 0 ==> forall|k: int| 0 <= k < i ==> cs@[k] != '/',
            forall|k: int| start <= k < i ==> cs@[k] != '/',
        decreases n - i,
    {
        if cs.get_char(i) == '/' {
            start = i + 1;
        }
        i = i + 1;
    }
    proof {
        lemma_last_slash_at(cs@, start - 1);
        assert(cs@.skip(last_slash(cs@) + 1) =~= cs@.skip(start as int));
    }
    let t = cs.substring_char(start, n);
    let tn = t.unicode_len();
    let dot1 = tn == 1 && t.get_char(0) == '.';
    let dot2 = tn == 2 && t.get_char(0) == '.' && t.get_char(1) == '.';
    proof {
        if dot1 {
            assert(t@ =~= seq!['.']);
        }
        if dot2 {
            assert(t@ =~= seq!['.', '.']);
        }
        if tn == 1 && !dot1 {
            assert(t@ != seq!['.']) by {
                assert(t@[0] != seq!['.'][0]);
            }
        }
        if tn == 2 && !dot2 {
            assert(t@ != seq!['.', '.']) by {
                if t@[0] == '.' && t@[1] == '.' {
                    assert(t@ =~= seq!['.', '.']);
                }
            }
        }
    }
    if tn == 0 || dot1 || dot2 {
        return Err(Error::NotFound);
    }
    Ok(t.to_owned())
}

/// Join two paths as a path join does: an absolute second path wins; an
/// empty first path gives the second; otherwise the two are joined with
/// exactly one separator added when the first does not already end in one.
pub fn join_path(f1: &str, f2: &str) -> (res: String)
    ensures
        path_is_absolute(f2@) ==> res@ == f2@,
        !path_is_absolute(f2@) && f1@.len() == 0 ==> res@ == f2@,
        !path_is_absolute(f2@) && f1@.len() > 0 && f1@.last() == '/' ==> res@ == f1@ + f2@,
        !path_is_absolute(f2@) && f1@.len() > 0 && f1@.last() != '/' ==> res@ == f1@ + "/"@ + f2@,
{
    let n2 = f2.unicode_len();
    if n2 > 0 && f2.get_char(0) == '/' {
        return f2.to_owned();
    }
    let n1 = f1.unicode_len();
    if n1 == 0 {
        return f2.to_owned();
    }
    let mut out = String::from_str(f1);
    if f1.get_char(n1 - 1) != '/' {
        out.append("/");
    }
    out.append(f2);
    out
}

/// The error for a failure with no more exact name.
pub fn error() -> (res: Error)
    ensures
        res == Error::Other,
{
    Error::Other
}

} // verus!
