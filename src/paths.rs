//! Relative paths of archive entries: which ones stay inside the target
//! directory, and the directory that holds each.

use vstd::prelude::*;

verus! {

pub open spec fn is_sep(c: char) -> bool {
    c == '/' || c == '\\'
}

/// A `..` segment starts at `i`: two dots bounded by separators or the ends.
pub open spec fn parent_segment_at(p: Seq<char>, i: int) -> bool {
    &&& 0 <= i && i + 1 < p.len()
    &&& p[i] == '.' && p[i + 1] == '.'
    &&& i == 0 || is_sep(p[i - 1])
    &&& i + 2 == p.len() || is_sep(p[i + 2])
}

/// `p` has a `..` segment somewhere.
pub open spec fn has_parent_segment(p: Seq<char>) -> bool {
    exists|i: int| parent_segment_at(p, i)
}

/// A path that, joined to a directory, names something inside it: non-empty,
/// relative (no leading separator, no drive or stream colon) and without `..`.
pub open spec fn is_safe_entry_path(p: Seq<char>) -> bool {
    &&& p.len() > 0
    &&& !is_sep(p[0])
    &&& forall|i: int| 0 <= i < p.len() ==> p[i] != ':'
    &&& !has_parent_segment(p)
}

/// Everything before the last separator; empty when there is none.
pub open spec fn parent_of(p: Seq<char>) -> Seq<char>
    decreases p.len(),
{
    if p.len() == 0 {
        p
    } else if is_sep(p.last()) {
        p.drop_last()
    } else {
        parent_of(p.drop_last())
    }
}

pub fn is_separator(c: char) -> (r: bool)
    ensures
        r == is_sep(c),
{
    c == '/' || c == '\\'
}

/// Whether an entry path stays inside the directory it is extracted to.
pub fn entry_path_is_safe(p: &str) -> (r: bool)
    ensures
        r == is_safe_entry_path(p@),
{
    let n = p.unicode_len();
    if n == 0 || is_separator(p.get_char(0)) {
        return false;
    }
    let mut i: usize = 0;
    while i < n
        invariant
            n == p@.len(),
            i <= n,
            forall|m: int| 0 <= m < i ==> p@[m] != ':',
            forall|m: int| 0 <= m < i ==> !#[trigger] parent_segment_at(p@, m),
        decreases n - i,
    {
        let c = p.get_char(i);
        if c == ':' {
            return false;
        }
        if c == '.' && i + 1 < n && p.get_char(i + 1) == '.' && (i == 0 || is_separator(
            p.get_char(i - 1),
        )) && (i + 2 == n || is_separator(p.get_char(i + 2))) {
            assert(parent_segment_at(p@, i as int));
            return false;
        }
        i = i + 1;
    }
    proof {
        assert forall|m: int| !parent_segment_at(p@, m) by {
            if 0 <= m < n {
            }
        }
    }
    true
}

/// The length of the parent of `p`, which is the prefix of that length.
pub fn parent_len(p: &str) -> (r: usize)
    ensures
        r <= p@.len(),
        parent_of(p@) == p@.take(r as int),
{
    let mut j = p.unicode_len();
    proof {
        assert(p@.take(j as int) =~= p@);
    }
    while j > 0 && !is_separator(p.get_char(j - 1))
        invariant
            j <= p@.len(),
            parent_of(p@) == parent_of(p@.take(j as int)),
        decreases j,
    {
        assert(p@.take(j as int).drop_last() =~= p@.take(j - 1));
        j = j - 1;
    }
    if j == 0 {
        assert(p@.take(0) =~= Seq::<char>::empty());
        0
    } else {
        assert(p@.take(j as int).drop_last() =~= p@.take(j - 1));
        j - 1
    }
}

} // verus!

verus! {

/// The parent is the prefix before a separator.
pub proof fn lemma_parent_is_prefix(p: Seq<char>)
    ensures
        parent_of(p).len() <= p.len(),
        parent_of(p) == p.take(parent_of(p).len() as int),
        parent_of(p).len() > 0 ==> parent_of(p).len() < p.len() && is_sep(p[parent_of(p).len() as int]),
    decreases p.len(),
{
    if p.len() > 0 && !is_sep(p.last()) {
        lemma_parent_is_prefix(p.drop_last());
        let q = parent_of(p.drop_last());
        assert(p.drop_last().take(q.len() as int) =~= p.take(q.len() as int));
    } else if p.len() > 0 {
        assert(p.drop_last() =~= p.take(p.len() - 1));
    }
}

/// The parent of a safe path is safe, when it is not empty.
pub proof fn lemma_parent_safe(p: Seq<char>)
    requires
        is_safe_entry_path(p),
        parent_of(p).len() > 0,
    ensures
        is_safe_entry_path(parent_of(p)),
{
    lemma_parent_is_prefix(p);
    let q = parent_of(p);
    let m = q.len() as int;
    assert(q[0] == p[0]);
    assert forall|i: int| 0 <= i < q.len() implies q[i] != ':' by {
        assert(q[i] == p[i]);
    }
    if has_parent_segment(q) {
        let i = choose|i: int| parent_segment_at(q, i);
        assert(q[i] == p[i] && q[i + 1] == p[i + 1]);
        if i > 0 {
            assert(q[i - 1] == p[i - 1]);
        }
        if i + 2 < m {
            assert(q[i + 2] == p[i + 2]);
        }
        assert(parent_segment_at(p, i));
    }
}

} // verus!
