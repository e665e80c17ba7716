//! The workspace's layout version marker: a decimal number, possibly
//! surrounded by whitespace. Workspaces older than the current layout version
//! use the legacy naming scheme.

use vstd::prelude::*;
use vstd::string::*;

verus! {

/// Layout version that workspaces are created with.
pub const CURRENT_CIEL_VERSION: u64 = 3;

/// ASCII whitespace, as trimmed around the version number.
pub open spec fn is_blank(c: char) -> bool {
    c == ' ' || c == '\t' || c == '\n' || c == '\r' || c == '\x0B' || c == '\x0C'
}

/// Value of the decimal digit `c`, none for another character.
pub open spec fn digit_value(c: char) -> Option<nat> {
    if c == '0' { Some(0) } else if c == '1' { Some(1) } else if c == '2' { Some(2) }
    else if c == '3' { Some(3) } else if c == '4' { Some(4) } else if c == '5' { Some(5) }
    else if c == '6' { Some(6) } else if c == '7' { Some(7) } else if c == '8' { Some(8) }
    else if c == '9' { Some(9) } else { None }
}

/// Value of the digit string `s` (each character a decimal digit).
pub open spec fn decimal_value(s: Seq<char>) -> nat
    decreases s.len(),
{
    if s.len() == 0 {
        0
    } else {
        decimal_value(s.drop_last()) * 10 + digit_value(s.last())->Some_0
    }
}

/// `s` without its leading and trailing whitespace: `s[lo..hi]`.
pub open spec fn trimmed_bounds(s: Seq<char>, lo: int, hi: int) -> bool {
    &&& 0 <= lo <= hi <= s.len()
    &&& forall|i: int| 0 <= i < lo ==> is_blank(s[i])
    &&& forall|i: int| hi <= i < s.len() ==> is_blank(s[i])
    &&& lo < hi ==> !is_blank(s[lo]) && !is_blank(s[hi - 1])
}

/// The version number held by `text`: its trimmed content, where that is a
/// non-empty string of decimal digits whose value fits in 64 bits.
pub open spec fn version_of(text: Seq<char>, lo: int, hi: int) -> Option<nat> {
    let core = text.subrange(lo, hi);
    if core.len() > 0 && (forall|i: int| 0 <= i < core.len() ==> digit_value(#[trigger] core[i])
        is Some) && decimal_value(core) <= u64::MAX {
        Some(decimal_value(core))
    } else {
        None
    }
}

proof fn lemma_decimal_prefix_grows(s: Seq<char>, k: int)
    requires
        0 <= k <= s.len(),
    ensures
        decimal_value(s.subrange(0, k)) <= decimal_value(s),
    decreases s.len() - k,
{
    if k < s.len() {
        lemma_decimal_prefix_grows(s, k + 1);
        assert(s.subrange(0, k + 1).drop_last() =~= s.subrange(0, k));
    } else {
        assert(s.subrange(0, k) =~= s);
    }
}

fn digit_of(c: char) -> (r: Option<u64>)
    ensures
        r matches Some(d) ==> digit_value(c) == Some(d as nat) && d < 10,
        r is None ==> digit_value(c) is None,
{
    if c == '0' { Some(0) } else if c == '1' { Some(1) } else if c == '2' { Some(2) }
    else if c == '3' { Some(3) } else if c == '4' { Some(4) } else if c == '5' { Some(5) }
    else if c == '6' { Some(6) } else if c == '7' { Some(7) } else if c == '8' { Some(8) }
    else if c == '9' { Some(9) } else { None }
}

fn blank(c: char) -> (r: bool)
    ensures
        r == is_blank(c),
{
    c == ' ' || c == '\t' || c == '\n' || c == '\r' || c == '\x0B' || c == '\x0C'
}

/// The layout version written in `text`, once trimmed of whitespace; none
/// where that is not a decimal number that fits in 64 bits.
pub fn parse_version(text: &str) -> (r: Option<u64>)
    ensures
        exists|lo: int, hi: int|
            trimmed_bounds(text@, lo, hi) && match version_of(text@, lo, hi) {
                Some(v) => r == Some(v as u64),
                None => r is None,
            },
{
    let len = text.unicode_len();
    let mut lo: usize = 0;
    while lo < len && blank(text.get_char(lo))
        invariant
            len == text@.len(),
            lo <= len,
            forall|i: int| 0 <= i < lo ==> is_blank(text@[i]),
        decreases len - lo,
    {
        lo = lo + 1;
    }
    let mut hi: usize = len;
    while hi > lo && blank(text.get_char(hi - 1))
        invariant
            len == text@.len(),
            lo <= hi <= len,
            forall|i: int| hi <= i < len ==> is_blank(text@[i]),
        decreases hi,
    {
        hi = hi - 1;
    }
    assert(trimmed_bounds(text@, lo as int, hi as int));
    let ghost core = text@.subrange(lo as int, hi as int);
    if lo == hi {
        return None;
    }
    let mut v: u64 = 0;
    let mut k: usize = lo;
    while k < hi
        invariant
            lo <= k <= hi <= len == text@.len(),
            core == text@.subrange(lo as int, hi as int),
            trimmed_bounds(text@, lo as int, hi as int),
            forall|i: int| 0 <= i < k - lo ==> digit_value(#[trigger] core[i]) is Some,
            v as nat == decimal_value(core.subrange(0, k - lo)),
        decreases hi - k,
    {
        assert(core[k - lo] == text@[k as int]);
        let d = match digit_of(text.get_char(k)) {
            Some(d) => d,
            None => {
                assert(digit_value(core[k - lo]) is None);
                assert(version_of(text@, lo as int, hi as int) is None);
                return None;
            },
        };
        assert(core.subrange(0, k - lo + 1).drop_last() =~= core.subrange(0, k - lo));
        if v > (u64::MAX - d) / 10 {
            proof {
                assert(v * 10 + d > u64::MAX) by (nonlinear_arith)
                    requires
                        v > (u64::MAX - d) / 10,
                        d < 10,
                ;
                lemma_decimal_prefix_grows(core, k - lo + 1);
                assert(version_of(text@, lo as int, hi as int) is None);
            }
            return None;
        }
        proof {
            assert(v * 10 + d <= u64::MAX) by (nonlinear_arith)
                requires
                    v <= (u64::MAX - d) / 10,
                    d < 10,
            ;
        }
        v = v * 10 + d;
        k = k + 1;
    }
    assert(core.subrange(0, k - lo) =~= core);
    assert(version_of(text@, lo as int, hi as int) == Some(v as nat));
    Some(v)
}

/// Whether a workspace whose version marker holds `text` uses the legacy
/// layout: its version is below the current layout version. None where the
/// marker holds no version.
pub fn is_legacy_version(text: &str) -> (r: Option<bool>)
    ensures
        exists|lo: int, hi: int|
            trimmed_bounds(text@, lo, hi) && match version_of(text@, lo, hi) {
                Some(v) => r == Some(v < CURRENT_CIEL_VERSION),
                None => r is None,
            },
{
    match parse_version(text) {
        None => None,
        Some(v) => Some(v < CURRENT_CIEL_VERSION),
    }
}

} // verus!
