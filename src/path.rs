//! Unix path handling on sequences of path units (bytes or characters).

use vstd::prelude::*;
use vstd::string::*;

verus! {

/// The path separator, as a byte.
pub const SEP: u8 = 47;

/// The byte of a `.` segment.
pub const DOT: u8 = 46;

/// Index at which the last segment of `p` begins: one past the last separator,
/// or zero when `p` holds none.
pub open spec fn seg_start<T>(p: Seq<T>, sep: T) -> int
    decreases p.len(),
{
    if p.len() == 0 {
        0
    } else if p.last() == sep {
        p.len() as int
    } else {
        seg_start(p.drop_last(), sep)
    }
}

/// The final component of path `p`: trailing separators and `.` segments are
/// skipped; none where the path is empty, is only a root, or ends in `..`.
pub open spec fn file_name_of<T>(p: Seq<T>, sep: T, dot: T) -> Option<Seq<T>>
    decreases p.len(),
{
    if p.len() == 0 {
        None
    } else if p.last() == sep {
        file_name_of(p.drop_last(), sep, dot)
    } else {
        let k = seg_start(p, sep);
        let seg = p.subrange(k, p.len() as int);
        if 0 <= k < p.len() && seg == seq![dot] {
            file_name_of(p.subrange(0, k), sep, dot)
        } else if seg == seq![dot, dot] {
            None
        } else {
            Some(seg)
        }
    }
}

/// `p` joined onto `base`: an absolute `p` replaces `base`; otherwise a
/// separator is put between them unless `base` is empty or already ends in one.
pub open spec fn joined(base: Seq<char>, p: Seq<char>) -> Seq<char> {
    if p.len() > 0 && p[0] == '/' {
        p
    } else if base.len() == 0 || base.last() == '/' {
        base + p
    } else {
        base + seq!['/'] + p
    }
}

/// `n` is a single path component: non-empty, without separators, and
/// neither `.` nor `..`.
pub open spec fn is_component<T>(n: Seq<T>, sep: T, dot: T) -> bool {
    &&& n.len() > 0
    &&& forall|i: int| 0 <= i < n.len() ==> n[i] != sep
    &&& n != seq![dot]
    &&& n != seq![dot, dot]
}

proof fn lemma_seg_start_after<T>(p: Seq<T>, n: Seq<T>, sep: T)
    requires
        p.len() == 0 || p.last() == sep,
        forall|i: int| 0 <= i < n.len() ==> n[i] != sep,
    ensures
        seg_start(p + n, sep) == p.len(),
    decreases n.len(),
{
    if n.len() == 0 {
        assert(p + n =~= p);
    } else {
        assert((p + n).drop_last() =~= p + n.drop_last());
        lemma_seg_start_after(p, n.drop_last(), sep);
    }
}

/// A component put after a separator (or alone) is the final component.
pub proof fn lemma_file_name_of_component<T>(p: Seq<T>, n: Seq<T>, sep: T, dot: T)
    requires
        p.len() == 0 || p.last() == sep,
        is_component(n, sep, dot),
    ensures
        file_name_of(p + n, sep, dot) == Some(n),
{
    lemma_seg_start_after(p, n, sep);
    let q = p + n;
    assert(q.last() == n[n.len() - 1]);
    assert(q.subrange(p.len() as int, q.len() as int) =~= n);
}

/// A single component joined onto any directory is the final component of
/// the joined path.
pub proof fn lemma_joined_component(base: Seq<char>, n: Seq<char>)
    requires
        is_component(n, '/', '.'),
    ensures
        file_name_of(joined(base, n), '/', '.') == Some(n),
{
    if base.len() == 0 || base.last() == '/' {
        lemma_file_name_of_component(base, n, '/', '.');
    } else {
        let b = base + seq!['/'];
        assert(b.last() == '/');
        assert(joined(base, n) =~= b + n);
        lemma_file_name_of_component(b, n, '/', '.');
    }
}

/// Start of the last segment of `p[..end]`, where `p[end - 1]` is no separator.
fn segment_start_chars(p: &str, end: usize) -> (k: usize)
    requires
        0 < end <= p@.len(),
        p@[end - 1] != '/',
    ensures
        k < end,
        k as int == seg_start(p@.subrange(0, end as int), '/'),
{
    let mut j: usize = end;
    while j > 0 && p.get_char(j - 1) != '/'
        invariant
            j <= end <= p@.len(),
            p@[end - 1] != '/',
            seg_start(p@.subrange(0, end as int), '/') == seg_start(p@.subrange(0, j as int), '/'),
        decreases j,
    {
        assert(p@.subrange(0, j as int).drop_last() =~= p@.subrange(0, j - 1));
        j = j - 1;
    }
    if j == end {
        assert(p@[j - 1] == '/');
    }
    j
}

/// Bounds of the final component of the path `p`, as `file_name_of` gives it.
pub fn file_name_bounds(p: &str) -> (r: Option<(usize, usize)>)
    ensures
        match r {
            None => file_name_of(p@, '/', '.') is None,
            Some((a, b)) => a <= b <= p@.len() && file_name_of(p@, '/', '.') == Some(
                p@.subrange(a as int, b as int),
            ),
        },
{
    let n = p.unicode_len();
    let mut end: usize = n;
    assert(p@.subrange(0, n as int) =~= p@);
    loop
        invariant
            end <= p@.len(),
            file_name_of(p@.subrange(0, end as int), '/', '.') == file_name_of(p@, '/', '.'),
        decreases end,
    {
        let ghost q = p@.subrange(0, end as int);
        if end == 0 {
            return None;
        }
        if p.get_char(end - 1) == '/' {
            assert(q.drop_last() =~= p@.subrange(0, end - 1));
            end = end - 1;
        } else {
            let k = segment_start_chars(p, end);
            let ghost seg = q.subrange(k as int, end as int);
            assert(seg =~= p@.subrange(k as int, end as int));
            if end - k == 1 && p.get_char(k) == '.' {
                assert(seg =~= seq!['.']);
                assert(q.subrange(0, k as int) =~= p@.subrange(0, k as int));
                end = k;
            } else if end - k == 2 && p.get_char(k) == '.' && p.get_char(k + 1) == '.' {
                assert(seg =~= seq!['.', '.']);
                return None;
            } else {
                assert(seg != seq!['.']) by {
                    if seg.len() == 1 {
                        assert(seg[0] == p@[k as int]);
                    }
                }
                assert(seg != seq!['.', '.']) by {
                    if seg.len() == 2 {
                        assert(seg[0] == p@[k as int]);
                        assert(seg[1] == p@[k + 1]);
                    }
                }
                return Some((k, end));
            }
        }
    }
}

/// Start of the last segment of `p[..end]`, where `p[end - 1]` is no separator.
fn segment_start_bytes(p: &[u8], end: usize) -> (k: usize)
    requires
        0 < end <= p@.len(),
        p@[end - 1] != SEP,
    ensures
        k < end,
        k as int == seg_start(p@.subrange(0, end as int), SEP),
{
    let mut j: usize = end;
    while j > 0 && p[j - 1] != SEP
        invariant
            j <= end <= p@.len(),
            p@[end - 1] != SEP,
            seg_start(p@.subrange(0, end as int), SEP) == seg_start(p@.subrange(0, j as int), SEP),
        decreases j,
    {
        assert(p@.subrange(0, j as int).drop_last() =~= p@.subrange(0, j - 1));
        j = j - 1;
    }
    if j == end {
        assert(p@[j - 1] == SEP);
    }
    j
}

/// Bounds of the final component of the path `p[..len]`, as `file_name_of` gives it.
pub fn file_name_bounds_bytes(p: &[u8], len: usize) -> (r: Option<(usize, usize)>)
    requires
        len <= p@.len(),
    ensures
        match r {
            None => file_name_of(p@.subrange(0, len as int), SEP, DOT) is None,
            Some((a, b)) => a <= b <= len && file_name_of(p@.subrange(0, len as int), SEP, DOT)
                == Some(p@.subrange(a as int, b as int)),
        },
{
    let mut end: usize = len;
    loop
        invariant
            end <= len <= p@.len(),
            file_name_of(p@.subrange(0, end as int), SEP, DOT) == file_name_of(
                p@.subrange(0, len as int),
                SEP,
                DOT,
            ),
        decreases end,
    {
        let ghost q = p@.subrange(0, end as int);
        if end == 0 {
            return None;
        }
        if p[end - 1] == SEP {
            assert(q.drop_last() =~= p@.subrange(0, end - 1));
            end = end - 1;
        } else {
            let k = segment_start_bytes(p, end);
            let ghost seg = q.subrange(k as int, end as int);
            assert(seg =~= p@.subrange(k as int, end as int));
            if end - k == 1 && p[k] == DOT {
                assert(seg =~= seq![DOT]);
                assert(q.subrange(0, k as int) =~= p@.subrange(0, k as int));
                end = k;
            } else if end - k == 2 && p[k] == DOT && p[k + 1] == DOT {
                assert(seg =~= seq![DOT, DOT]);
                return None;
            } else {
                assert(seg != seq![DOT]) by {
                    if seg.len() == 1 {
                        assert(seg[0] == p@[k as int]);
                    }
                }
                assert(seg != seq![DOT, DOT]) by {
                    if seg.len() == 2 {
                        assert(seg[0] == p@[k as int]);
                        assert(seg[1] == p@[k + 1]);
                    }
                }
                return Some((k, end));
            }
        }
    }
}

/// The path `p` joined onto `base`, as `joined` gives it.
pub fn join_path(base: &str, p: &str) -> (r: String)
    ensures
        r@ == joined(base@, p@),
{
    let pn = p.unicode_len();
    if pn > 0 && p.get_char(0) == '/' {
        return p.to_owned();
    }
    let bn = base.unicode_len();
    let mut r = base.to_owned();
    if bn > 0 && base.get_char(bn - 1) != '/' {
        proof {
            reveal_strlit("/");
        }
        r.append("/");
    }
    r.append(p);
    r
}

} // verus!
