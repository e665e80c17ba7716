//! Namespace names: the identity under which an instance's container is known
//! to the host's machine manager, `<instance name>-<id in lowercase hex>`.

use crate::path::{
    file_name_bounds, file_name_of, is_component, join_path, joined, lemma_joined_component,
};
use vstd::prelude::*;
use vstd::string::*;

verus! {

/// The Adler-32 checksum of `bytes`.
pub uninterp spec fn adler32_of(bytes: Seq<u8>) -> u32;

/// Relies on adler32::adler32, run over the UTF-8 bytes of `s`: it yields the
/// Adler-32 checksum of all of them. Its only error is the reader's, and
/// reading from a byte slice never fails.
#[verifier::external_body]
fn checksum(s: &str) -> (r: u32)
    ensures
        r == adler32_of(s.spec_bytes()),
{
    adler32::adler32(s.as_bytes()).unwrap_or(0)
}

/// Lowercase hexadecimal digit of `d < 16`.
pub open spec fn hex_char(d: nat) -> char {
    seq!['0', '1', '2', '3', '4', '5', '6', '7', '8', '9', 'a', 'b', 'c', 'd', 'e', 'f'][d as int]
}

/// `n` in lowercase hexadecimal, without leading zeros (`0` for zero).
pub open spec fn hex_digits(n: nat) -> Seq<char>
    decreases n,
{
    if n < 16 {
        seq![hex_char(n)]
    } else {
        hex_digits(n / 16) + seq![hex_char(n % 16)]
    }
}

/// The namespace name of instance `name` with identifier `id`.
pub open spec fn ns_name_of(name: Seq<char>, id: nat) -> Seq<char> {
    name + seq!['-'] + hex_digits(id)
}

/// Namespace name of the instance at the absolute path `path` in the current
/// layout: its final component, tagged with the checksum of the whole path.
pub open spec fn current_ns_name(path: Seq<char>) -> Option<Seq<char>> {
    match file_name_of(path, '/', '.') {
        Some(f) => Some(ns_name_of(f, adler32_of(vstd::utf8::encode_utf8(path)) as nat)),
        None => None,
    }
}

proof fn lemma_hex_char_injective(a: nat, b: nat)
    requires
        a < 16,
        b < 16,
        hex_char(a) == hex_char(b),
    ensures
        a == b,
{
    let digits = seq!['0', '1', '2', '3', '4', '5', '6', '7', '8', '9', 'a', 'b', 'c', 'd', 'e', 'f'];
    assert(forall|i: int, j: int| 0 <= i < 16 && 0 <= j < 16 && i != j ==> digits[i] != digits[j]);
}

proof fn lemma_hex_digits_shape(n: nat)
    ensures
        hex_digits(n).len() >= 1,
        n >= 16 ==> hex_digits(n).len() >= 2,
        forall|i: int| 0 <= i < hex_digits(n).len() ==> hex_digits(n)[i] != '-',
    decreases n,
{
    let digits = seq!['0', '1', '2', '3', '4', '5', '6', '7', '8', '9', 'a', 'b', 'c', 'd', 'e', 'f'];
    assert(forall|i: int| 0 <= i < 16 ==> digits[i] != '-');
    if n >= 16 {
        lemma_hex_digits_shape(n / 16);
        let h = hex_digits(n);
        assert forall|i: int| 0 <= i < h.len() implies h[i] != '-' by {
            if i < h.len() - 1 {
                assert(h[i] == hex_digits(n / 16)[i]);
            }
        }
    }
}

proof fn lemma_hex_digits_injective(a: nat, b: nat)
    requires
        hex_digits(a) == hex_digits(b),
    ensures
        a == b,
    decreases a,
{
    lemma_hex_digits_shape(a);
    lemma_hex_digits_shape(b);
    let h = hex_digits(a);
    assert(h.last() == hex_char(a % 16));
    assert(h.last() == hex_char(b % 16));
    lemma_hex_char_injective(a % 16, b % 16);
    if a >= 16 && b >= 16 {
        assert(hex_digits(a / 16) =~= h.drop_last());
        assert(hex_digits(b / 16) =~= h.drop_last());
        lemma_hex_digits_injective(a / 16, b / 16);
    }
}

/// A namespace name determines both the instance name and the identifier it
/// was made from: instances with different names never share a namespace name,
/// and neither do paths whose identifiers differ.
pub proof fn lemma_ns_name_injective(n1: Seq<char>, id1: nat, n2: Seq<char>, id2: nat)
    requires
        ns_name_of(n1, id1) == ns_name_of(n2, id2),
    ensures
        n1 == n2,
        id1 == id2,
{
    let s = ns_name_of(n1, id1);
    let x1 = hex_digits(id1);
    let x2 = hex_digits(id2);
    lemma_hex_digits_shape(id1);
    lemma_hex_digits_shape(id2);
    if x1.len() < x2.len() {
        let i = s.len() - x1.len() - 1;
        assert(s[i] == '-');
        assert(s[i] == x2[i - (n2.len() + 1)]);
    } else if x2.len() < x1.len() {
        let i = s.len() - x2.len() - 1;
        assert(s[i] == '-');
        assert(s[i] == x1[i - (n1.len() + 1)]);
    }
    assert(n1 =~= s.subrange(0, n1.len() as int));
    assert(n2 =~= s.subrange(0, n2.len() as int));
    assert(x1 =~= s.subrange(n1.len() as int + 1, s.len() as int));
    assert(x2 =~= s.subrange(n2.len() as int + 1, s.len() as int));
    lemma_hex_digits_injective(id1, id2);
}

/// Two instance paths in a current-layout workspace whose final components
/// differ never get the same namespace name.
pub proof fn lemma_current_names_distinct(p1: Seq<char>, p2: Seq<char>)
    requires
        file_name_of(p1, '/', '.') is Some,
        file_name_of(p2, '/', '.') is Some,
        file_name_of(p1, '/', '.') != file_name_of(p2, '/', '.'),
    ensures
        current_ns_name(p1) != current_ns_name(p2),
{
    let f1 = file_name_of(p1, '/', '.')->Some_0;
    let f2 = file_name_of(p2, '/', '.')->Some_0;
    if current_ns_name(p1) == current_ns_name(p2) {
        lemma_ns_name_injective(
            f1,
            adler32_of(vstd::utf8::encode_utf8(p1)) as nat,
            f2,
            adler32_of(vstd::utf8::encode_utf8(p2)) as nat,
        );
    }
}

/// Two distinct instances of one workspace never share a namespace name: for
/// instance names that are single path components, joined onto the same
/// directory, the current-layout names differ, and so do the legacy names
/// made with any one key.
pub proof fn lemma_instance_names_distinct(current_dir: Seq<char>, n1: Seq<char>, n2: Seq<char>)
    requires
        is_component(n1, '/', '.'),
        is_component(n2, '/', '.'),
        n1 != n2,
    ensures
        current_ns_name(joined(current_dir, n1)) != current_ns_name(joined(current_dir, n2)),
        forall|key: nat| ns_name_of(n1, key) != ns_name_of(n2, key),
{
    lemma_joined_component(current_dir, n1);
    lemma_joined_component(current_dir, n2);
    lemma_current_names_distinct(joined(current_dir, n1), joined(current_dir, n2));
    assert forall|key: nat| ns_name_of(n1, key) != ns_name_of(n2, key) by {
        if ns_name_of(n1, key) == ns_name_of(n2, key) {
            lemma_ns_name_injective(n1, key, n2, key);
        }
    }
}

/// Two instance paths with the same final component get the same namespace
/// name exactly when their checksums agree.
pub proof fn lemma_current_names_follow_checksum(p1: Seq<char>, p2: Seq<char>)
    requires
        file_name_of(p1, '/', '.') is Some,
        file_name_of(p1, '/', '.') == file_name_of(p2, '/', '.'),
    ensures
        (current_ns_name(p1) == current_ns_name(p2)) == (adler32_of(vstd::utf8::encode_utf8(p1))
            == adler32_of(vstd::utf8::encode_utf8(p2))),
{
    let f = file_name_of(p1, '/', '.')->Some_0;
    if current_ns_name(p1) == current_ns_name(p2) {
        lemma_ns_name_injective(
            f,
            adler32_of(vstd::utf8::encode_utf8(p1)) as nat,
            f,
            adler32_of(vstd::utf8::encode_utf8(p2)) as nat,
        );
    }
}

/// Layout of a workspace, fixed when it is discovered.
pub enum Layout {
    /// Names carry the checksum of the instance path.
    Current,
    /// Names carry the IPC key that the host derived from the working directory.
    Legacy { key: i32 },
}

/// Why no namespace name could be derived.
#[derive(Debug, PartialEq, Eq)]
pub enum NameError {
    /// The path has no final component.
    InvalidPath,
    /// The host could not derive an IPC key (a negative key).
    KeyFailed,
}

fn hex_digit(d: u32) -> (r: &'static str)
    requires
        d < 16,
    ensures
        r@ == seq![hex_char(d as nat)],
{
    let digits = "0123456789abcdef";
    proof {
        reveal_strlit("0123456789abcdef");
    }
    let r = digits.substring_char(d as usize, d as usize + 1);
    assert(r@ =~= seq![hex_char(d as nat)]);
    r
}

/// Appends `n` in lowercase hexadecimal to `s`.
pub fn push_hex(s: &mut String, n: u32)
    ensures
        final(s)@ == old(s)@ + hex_digits(n as nat),
    decreases n,
{
    if n >= 16 {
        push_hex(s, n / 16);
    }
    s.append(hex_digit(n % 16));
    assert(final(s)@ =~= old(s)@ + hex_digits(n as nat));
}

/// `name`, a dash, and `id` in lowercase hexadecimal.
pub fn format_ns_name(name: &str, id: u32) -> (r: String)
    ensures
        r@ == ns_name_of(name@, id as nat),
{
    let mut r = name.to_owned();
    proof {
        reveal_strlit("-");
    }
    r.append("-");
    push_hex(&mut r, id);
    assert(r@ =~= ns_name_of(name@, id as nat));
    r
}

/// Namespace name of the instance at `path` in a current-layout workspace.
pub fn new_container_name(path: &str) -> (r: Result<String, NameError>)
    ensures
        match current_ns_name(path@) {
            Some(n) => r matches Ok(s) && s@ == n,
            None => r == Err::<String, NameError>(NameError::InvalidPath),
        },
{
    match file_name_bounds(path) {
        None => Err(NameError::InvalidPath),
        Some((a, b)) => {
            let name = path.substring_char(a, b);
            Ok(format_ns_name(name, checksum(path)))
        },
    }
}

/// Namespace name of the instance at `path` in a legacy workspace, where the
/// host derived `key` from the working directory.
pub fn legacy_container_name(path: &str, key: i32) -> (r: Result<String, NameError>)
    ensures
        match file_name_of(path@, '/', '.') {
            None => r == Err::<String, NameError>(NameError::InvalidPath),
            Some(f) => if key < 0 {
                r == Err::<String, NameError>(NameError::KeyFailed)
            } else {
                r matches Ok(s) && s@ == ns_name_of(f, key as nat)
            },
        },
{
    match file_name_bounds(path) {
        None => Err(NameError::InvalidPath),
        Some((a, b)) => {
            if key < 0 {
                Err(NameError::KeyFailed)
            } else {
                Ok(format_ns_name(path.substring_char(a, b), key as u32))
            }
        },
    }
}

/// Namespace name of the instance at `path`, taken relative to `current_dir`,
/// in a workspace of the given layout.
pub fn get_container_ns_name(current_dir: &str, path: &str, layout: Layout) -> (r: Result<
    String,
    NameError,
>)
    ensures
        ({
            let full = joined(current_dir@, path@);
            match layout {
                Layout::Current => match current_ns_name(full) {
                    Some(n) => r matches Ok(s) && s@ == n,
                    None => r == Err::<String, NameError>(NameError::InvalidPath),
                },
                Layout::Legacy { key } => match file_name_of(full, '/', '.') {
                    None => r == Err::<String, NameError>(NameError::InvalidPath),
                    Some(f) => if key < 0 {
                        r == Err::<String, NameError>(NameError::KeyFailed)
                    } else {
                        r matches Ok(s) && s@ == ns_name_of(f, key as nat)
                    },
                },
            }
        }),
{
    let full = join_path(current_dir, path);
    match layout {
        Layout::Current => new_container_name(full.as_str()),
        Layout::Legacy { key } => legacy_container_name(full.as_str(), key),
    }
}

} // verus!
