//! Entries of the host's mount table (`/proc/self/mounts`): a source, a mount
//! point and a filesystem type, separated by spaces and followed by options,
//! where a space, tab, newline or backslash in a path is written as a
//! three-digit octal escape (`\040`, `\011`, `\012`, `\134`).

use crate::status::str_equal;
use vstd::prelude::*;
use vstd::string::*;

verus! {

/// The character written as the escape `\<d>`, for the escapes the mount
/// table uses.
pub open spec fn escaped_char(d: Seq<char>) -> Option<char> {
    if d == seq!['0', '4', '0'] {
        Some(' ')
    } else if d == seq!['0', '1', '1'] {
        Some('\t')
    } else if d == seq!['0', '1', '2'] {
        Some('\n')
    } else if d == seq!['1', '3', '4'] {
        Some('\\')
    } else {
        None
    }
}

/// A mount-table field with its escapes decoded.
pub open spec fn unescape(s: Seq<char>) -> Seq<char>
    decreases s.len(),
{
    if s.len() == 0 {
        Seq::empty()
    } else if s.len() >= 4 && s[0] == '\\' && escaped_char(s.subrange(1, 4)) is Some {
        seq![escaped_char(s.subrange(1, 4))->Some_0] + unescape(s.subrange(4, s.len() as int))
    } else {
        seq![s[0]] + unescape(s.subrange(1, s.len() as int))
    }
}

/// Index of the first space of `s` at or after `from`, or the length of `s`.
pub open spec fn next_space(s: Seq<char>, from: int) -> int
    decreases s.len() - from,
{
    if from >= s.len() {
        s.len() as int
    } else if s[from] == ' ' {
        from
    } else {
        next_space(s, from + 1)
    }
}

/// The mount-table line `line` says that a filesystem of type `fstype` is
/// mounted at `target`.
pub open spec fn entry_matches(line: Seq<char>, target: Seq<char>, fstype: Seq<char>) -> bool {
    let a = next_space(line, 0);
    let b = next_space(line, a + 1);
    let c = next_space(line, b + 1);
    &&& a < line.len()
    &&& b < line.len()
    &&& unescape(line.subrange(a + 1, b)) == target
    &&& line.subrange(b + 1, c) == fstype
}

fn find_space(s: &str, from: usize, len: usize) -> (r: usize)
    requires
        len == s@.len(),
        from <= len,
    ensures
        r as int == next_space(s@, from as int),
        from <= r <= len,
{
    let mut i: usize = from;
    while i < len && s.get_char(i) != ' '
        invariant
            len == s@.len(),
            from <= i <= len,
            next_space(s@, from as int) == next_space(s@, i as int),
        decreases len - i,
    {
        i = i + 1;
    }
    i
}

fn escape_at(s: &str, i: usize, to: usize) -> (r: Option<char>)
    requires
        i < to <= s@.len(),
    ensures
        r == (if to - i >= 4 && s@[i as int] == '\\' {
            escaped_char(s@.subrange(i + 1, i + 4))
        } else {
            None
        }),
{
    if to - i < 4 || s.get_char(i) != '\\' {
        return None;
    }
    let d0 = s.get_char(i + 1);
    let d1 = s.get_char(i + 2);
    let d2 = s.get_char(i + 3);
    let ghost d = s@.subrange(i + 1, i + 4);
    assert(d =~= seq![d0, d1, d2]);
    if d0 == '0' && d1 == '4' && d2 == '0' {
        Some(' ')
    } else if d0 == '0' && d1 == '1' && d2 == '1' {
        Some('\t')
    } else if d0 == '0' && d1 == '1' && d2 == '2' {
        Some('\n')
    } else if d0 == '1' && d1 == '3' && d2 == '4' {
        Some('\\')
    } else {
        None
    }
}

/// Whether the field `s[from..to]`, once decoded, is `target`.
fn decoded_equals(s: &str, from: usize, to: usize, target: &str) -> (r: bool)
    requires
        from <= to <= s@.len(),
    ensures
        r == (unescape(s@.subrange(from as int, to as int)) == target@),
{
    let n = target.unicode_len();
    let mut i: usize = from;
    let mut j: usize = 0;
    while i < to
        invariant
            from <= i <= to <= s@.len(),
            n == target@.len(),
            j <= n,
            unescape(s@.subrange(from as int, to as int)) == target@.subrange(0, j as int)
                + unescape(s@.subrange(i as int, to as int)),
        decreases to - i,
    {
        let ghost rest = s@.subrange(i as int, to as int);
        let (c, w) = match escape_at(s, i, to) {
            Some(c) => (c, 4usize),
            None => (s.get_char(i), 1usize),
        };
        proof {
            assert(rest[0] == s@[i as int]);
            if rest.len() >= 4 {
                assert(rest.subrange(1, 4) =~= s@.subrange(i + 1, i + 4));
            }
            assert(rest.subrange(w as int, rest.len() as int) =~= s@.subrange(i + w, to as int));
            assert(unescape(rest) == seq![c] + unescape(s@.subrange(i + w, to as int)));
        }
        if j == n {
            assert(unescape(s@.subrange(from as int, to as int)).len() > n);
            return false;
        }
        if target.get_char(j) != c {
            assert(unescape(s@.subrange(from as int, to as int))[j as int] == c);
            return false;
        }
        assert(target@.subrange(0, j + 1) =~= target@.subrange(0, j as int) + seq![c]);
        assert(unescape(s@.subrange(from as int, to as int)) =~= target@.subrange(0, j + 1)
            + unescape(s@.subrange(i + w, to as int)));
        i = i + w;
        j = j + 1;
    }
    assert(s@.subrange(i as int, to as int) =~= Seq::<char>::empty());
    assert(unescape(s@.subrange(i as int, to as int)) =~= Seq::<char>::empty());
    assert(target@.subrange(0, j as int) + Seq::<char>::empty() =~= target@.subrange(0, j as int));
    if j == n {
        assert(target@.subrange(0, j as int) =~= target@);
        true
    } else {
        assert(target@.subrange(0, j as int).len() != target@.len());
        false
    }
}

/// Whether the mount-table line `line` records a filesystem of type `fstype`
/// mounted at `target`.
pub fn mount_entry_matches(line: &str, target: &str, fstype: &str) -> (r: bool)
    ensures
        r == entry_matches(line@, target@, fstype@),
{
    let len = line.unicode_len();
    let a = find_space(line, 0, len);
    if a == len {
        return false;
    }
    let b = find_space(line, a + 1, len);
    if b == len {
        return false;
    }
    let c = find_space(line, b + 1, len);
    decoded_equals(line, a + 1, b, target) && str_equal(line.substring_char(b + 1, c), fstype)
}

} // verus!
