//! Slash-separated paths as text.
//!
//! A path is the text of a Unix path. `join` and `parent` follow the rules of
//! the platform's path type on that text.

use vstd::prelude::*;
use vstd::string::*;

use crate::text;

verus! {

// ---------------------------------------------------------------------------
// Model
// ---------------------------------------------------------------------------

/// Whether a path starts at the root.
pub open spec fn absolute(p: Seq<char>) -> bool {
    p.len() > 0 && p[0] == '/'
}

/// `leaf` below `base`; an absolute `leaf` stands for itself.
pub open spec fn joined_path(base: Seq<char>, leaf: Seq<char>) -> Seq<char> {
    if absolute(leaf) {
        leaf
    } else if base.len() == 0 || base.last() == '/' {
        base + leaf
    } else {
        base + "/"@ + leaf
    }
}

/// A path without trailing separators and trailing `.` components.
pub open spec fn tidied(p: Seq<char>) -> Seq<char>
    decreases p.len(),
{
    if p.len() > 1 && p.last() == '/' {
        tidied(p.drop_last())
    } else if p.len() > 1 && p.last() == '.' && p[p.len() - 2] == '/' {
        tidied(p.drop_last())
    } else {
        p
    }
}

/// Everything up to and with the last separator.
pub open spec fn up_to_separator(p: Seq<char>) -> Seq<char>
    decreases p.len(),
{
    if p.len() == 0 || p.last() == '/' {
        p
    } else {
        up_to_separator(p.drop_last())
    }
}

/// The path without its last component; neither the root nor the empty path has one.
pub open spec fn parent_path(p: Seq<char>) -> Option<Seq<char>> {
    let c = tidied(p);
    if c.len() == 0 || c == seq!['/'] {
        None
    } else {
        Some(tidied(up_to_separator(c)))
    }
}

// ---------------------------------------------------------------------------
// Facts
// ---------------------------------------------------------------------------

proof fn tidied_is_shorter(p: Seq<char>)
    ensures
        tidied(p).len() <= p.len(),
    decreases p.len(),
{
    if p.len() > 1 && p.last() == '/' {
        tidied_is_shorter(p.drop_last());
    } else if p.len() > 1 && p.last() == '.' && p[p.len() - 2] == '/' {
        tidied_is_shorter(p.drop_last());
    }
}

proof fn up_to_separator_is_shorter(p: Seq<char>)
    ensures
        up_to_separator(p).len() <= p.len(),
        p.len() > 0 && p.last() != '/' ==> up_to_separator(p).len() < p.len(),
    decreases p.len(),
{
    if p.len() > 0 && p.last() != '/' {
        up_to_separator_is_shorter(p.drop_last());
    }
}

/// After tidying, only the root itself ends with a separator.
proof fn tidied_end(p: Seq<char>)
    ensures
        tidied(p).len() > 0 && tidied(p).last() == '/' ==> tidied(p) =~= seq!['/'],
    decreases p.len(),
{
    if p.len() > 1 && p.last() == '/' {
        tidied_end(p.drop_last());
    } else if p.len() > 1 && p.last() == '.' && p[p.len() - 2] == '/' {
        tidied_end(p.drop_last());
    }
}

/// The parent of a path is shorter than the path, so climbing ends.
pub proof fn parent_is_shorter(p: Seq<char>)
    ensures
        parent_path(p) matches Some(q) ==> q.len() < p.len(),
{
    let c = tidied(p);
    tidied_is_shorter(p);
    tidied_end(p);
    if !(c.len() == 0 || c == seq!['/']) {
        up_to_separator_is_shorter(c);
        tidied_is_shorter(up_to_separator(c));
    }
}

// ---------------------------------------------------------------------------
// Operations
// ---------------------------------------------------------------------------

/// Whether a path starts at the root.
pub fn is_absolute(p: &str) -> (r: bool)
    ensures
        r == absolute(p@),
{
    let n: usize = p.unicode_len();
    n > 0 && p.get_char(0) == '/'
}

/// `leaf` below `base`.
pub fn join(base: &str, leaf: &str) -> (r: String)
    ensures
        r@ == joined_path(base@, leaf@),
{
    if is_absolute(leaf) {
        return leaf.to_owned();
    }
    let n: usize = base.unicode_len();
    let mut out = base.to_owned();
    if n > 0 && base.get_char(n - 1) != '/' {
        out.append("/");
    }
    out.append(leaf);
    out
}

/// The length of the tidied form of the first `n` characters.
fn tidy_len(chars: &Vec<char>, n: usize) -> (r: usize)
    requires
        n <= chars@.len(),
    ensures
        r <= n,
        chars@.take(r as int) == tidied(chars@.take(n as int)),
{
    let mut k: usize = n;
    while k > 1 && (chars[k - 1] == '/' || (chars[k - 1] == '.' && chars[k - 2] == '/'))
        invariant
            k <= n <= chars@.len(),
            tidied(chars@.take(k as int)) == tidied(chars@.take(n as int)),
        decreases k,
    {
        assert(chars@.take(k as int).drop_last() =~= chars@.take(k - 1));
        k = k - 1;
    }
    k
}

/// The path without its last component, if it has one.
pub fn parent(p: &str) -> (r: Option<String>)
    ensures
        text::opt_text(r) == parent_path(p@),
{
    let chars = text::chars_of(p);
    let n: usize = chars.len();
    assert(chars@.take(n as int) =~= p@);
    let c: usize = tidy_len(&chars, n);
    let ghost tidy = chars@.take(c as int);
    if c == 0 || (c == 1 && chars[0] == '/') {
        assert(c == 1 ==> tidy =~= seq!['/']);
        return None;
    }
    assert(!(tidy =~= seq!['/'])) by {
        if tidy =~= seq!['/'] {
            assert(tidy[0] == '/');
        }
    }
    let mut k: usize = c;
    while k > 0 && chars[k - 1] != '/'
        invariant
            k <= c <= chars@.len(),
            tidy == chars@.take(c as int),
            up_to_separator(chars@.take(k as int)) == up_to_separator(tidy),
        decreases k,
    {
        assert(chars@.take(k as int).drop_last() =~= chars@.take(k - 1));
        k = k - 1;
    }
    let q: usize = tidy_len(&chars, k);
    let out = text::text_of(&chars, 0, q);
    assert(chars@.subrange(0, q as int) =~= chars@.take(q as int));
    Some(out)
}

// ---------------------------------------------------------------------------
// Laws
// ---------------------------------------------------------------------------

/// A relative path that is joined stays whole: what was joined begins with the base, ends with
/// the leaf, and has nothing but a separator between them, where the base does not end with
/// one. An absolute path takes the place of the base.
pub proof fn joined_path_keeps_its_parts(base: Seq<char>, leaf: Seq<char>)
    ensures
        leaf.len() > 0 && leaf[0] == '/' ==> joined_path(base, leaf) == leaf,
        leaf.len() == 0 || leaf[0] != '/' ==> ({
            let p = joined_path(base, leaf);
            &&& p.take(base.len() as int) == base
            &&& p.skip(p.len() - leaf.len()) == leaf
            &&& base.len() > 0 && base.last() != '/' ==> p.len() == base.len() + leaf.len() + 1
                && p[base.len() as int] == '/'
            &&& base.len() == 0 || base.last() == '/' ==> p.len() == base.len() + leaf.len()
        }),
{
    reveal_strlit("/");
    let p = joined_path(base, leaf);
    if leaf.len() == 0 || leaf[0] != '/' {
        assert(p.take(base.len() as int) =~= base);
        assert(p.skip(p.len() - leaf.len()) =~= leaf);
    }
}

/// Climbing undoes joining: the parent of a file in a directory is that directory.
pub proof fn parent_undoes_join(base: Seq<char>, leaf: Seq<char>)
    requires
        base.len() > 0,
        base.last() != '/',
        leaf.len() > 0,
        forall|k: int| 0 <= k < leaf.len() ==> #[trigger] leaf[k] != '/',
        leaf != seq!['.'],
        tidied(base) == base,
    ensures
        parent_path(joined_path(base, leaf)) == Some(base),
{
    reveal_strlit("/");
    let p = joined_path(base, leaf);
    let n = base.len() as int;
    assert(leaf[0] != '/');
    assert(p =~= base + seq!['/'] + leaf);
    assert(p.last() == leaf.last() && leaf[leaf.len() - 1] != '/');
    assert(tidied(p) == p) by {
        if p.last() == '.' && p[p.len() - 2] == '/' {
            if leaf.len() >= 2 {
                assert(p[p.len() - 2] == leaf[leaf.len() - 2]);
            } else {
                assert(leaf =~= seq!['.']);
            }
        }
    }
    stem_ends_at_the_separator(base + seq!['/'], leaf);
    assert(up_to_separator(p) == base + seq!['/']);
    assert((base + seq!['/']).drop_last() =~= base);
    assert(p != seq!['/']) by {
        if p == seq!['/'] {
            assert(p.len() == 1);
        }
    }
}

proof fn stem_ends_at_the_separator(stem: Seq<char>, leaf: Seq<char>)
    requires
        stem.len() > 0,
        stem.last() == '/',
        forall|k: int| 0 <= k < leaf.len() ==> #[trigger] leaf[k] != '/',
    ensures
        up_to_separator(stem + leaf) == stem,
    decreases leaf.len(),
{
    if leaf.len() == 0 {
        assert(stem + leaf =~= stem);
    } else {
        assert((stem + leaf).last() == leaf[leaf.len() - 1]);
        assert((stem + leaf).drop_last() =~= stem + leaf.drop_last());
        stem_ends_at_the_separator(stem, leaf.drop_last());
    }
}

} // verus!
