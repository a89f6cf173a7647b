use vstd::prelude::*;
use vstd::utf8::{decode_utf8, valid_utf8};

use crate::error::VaultError;

verus! {

/// How many leading bytes of a file the binary heuristic looks at.
pub const BINARY_SAMPLE_LEN: usize = 8192;

/// A control byte other than tab, line feed and carriage return.
pub open spec fn is_control(b: u8) -> bool {
    b < 32 && b != 9 && b != 10 && b != 13
}

/// Number of control bytes (in the sense of `is_control`) in `s`.
pub open spec fn control_count(s: Seq<u8>) -> nat
    decreases s.len(),
{
    if s.len() == 0 {
        0
    } else {
        control_count(s.drop_last()) + if is_control(s.last()) { 1nat } else { 0nat }
    }
}

/// The part of a file that the heuristic inspects.
pub open spec fn sample_of(bytes: Seq<u8>) -> Seq<u8> {
    if bytes.len() <= BINARY_SAMPLE_LEN {
        bytes
    } else {
        bytes.take(BINARY_SAMPLE_LEN as int)
    }
}

/// A file is taken for binary when its sample is non-empty and either holds a
/// zero byte or has more than three tenths of its bytes as control bytes.
pub open spec fn looks_binary(bytes: Seq<u8>) -> bool {
    let s = sample_of(bytes);
    s.len() > 0 && ((exists|i: int| 0 <= i < s.len() && s[i] == 0) || 10 * control_count(s) > 3
        * s.len())
}

proof fn lemma_control_count_le(s: Seq<u8>)
    ensures
        control_count(s) <= s.len(),
    decreases s.len(),
{
    if s.len() > 0 {
        lemma_control_count_le(s.drop_last());
    }
}

proof fn lemma_no_controls(s: Seq<u8>)
    requires
        forall|i: int| 0 <= i < s.len() ==> !is_control(#[trigger] s[i]),
    ensures
        control_count(s) == 0,
    decreases s.len(),
{
    if s.len() > 0 {
        lemma_no_controls(s.drop_last());
    }
}

/// Text made of letters (ASCII or any UTF-8 encoded letter, whose bytes are
/// all at least 32), spaces, tabs and line breaks is never taken for binary.
pub proof fn lemma_text_is_not_binary(bytes: Seq<u8>)
    requires
        forall|i: int|
            0 <= i < bytes.len() ==> #[trigger] bytes[i] >= 32 || bytes[i] == 9 || bytes[i] == 10
                || bytes[i] == 13,
    ensures
        !looks_binary(bytes),
{
    let s = sample_of(bytes);
    assert forall|i: int| 0 <= i < s.len() implies !is_control(#[trigger] s[i]) && s[i] != 0 by {
        assert(s[i] == bytes[i]);
    }
    lemma_no_controls(s);
}

/// A file whose first hundred bytes are all zero is taken for binary.
pub proof fn lemma_zeros_are_binary(bytes: Seq<u8>)
    requires
        bytes.len() >= 100,
        forall|i: int| 0 <= i < 100 ==> #[trigger] bytes[i] == 0,
    ensures
        looks_binary(bytes),
{
    let s = sample_of(bytes);
    assert(s[0] == 0);
}

/// Decides whether a file's leading bytes look like binary data.
///
/// Only the first `BINARY_SAMPLE_LEN` bytes are considered. An empty file is
/// text; a zero byte makes it binary; otherwise it is binary when control
/// bytes other than tab, line feed and carriage return make up more than 30%.
pub fn is_binary_content(bytes: &[u8]) -> (r: bool)
    ensures
        r == looks_binary(bytes@),
{
    let n: usize = if bytes.len() <= BINARY_SAMPLE_LEN {
        bytes.len()
    } else {
        BINARY_SAMPLE_LEN
    };
    let ghost s = sample_of(bytes@);
    assert(s =~= bytes@.take(n as int));
    let mut controls: usize = 0;
    let mut saw_zero = false;
    let mut i: usize = 0;
    while i < n
        invariant
            n <= bytes.len(),
            n <= BINARY_SAMPLE_LEN,
            s == bytes@.take(n as int),
            i <= n,
            controls == control_count(bytes@.take(i as int)),
            controls <= i,
            saw_zero <==> (exists|j: int| 0 <= j < i && bytes@[j] == 0),
        decreases n - i,
    {
        proof {
            lemma_control_count_le(bytes@.take(i as int));
            assert(bytes@.take(i + 1).drop_last() =~= bytes@.take(i as int));
        }
        let b = bytes[i];
        if b == 0 {
            saw_zero = true;
        }
        if b < 32 && b != 9 && b != 10 && b != 13 {
            controls = controls + 1;
        }
        i = i + 1;
    }
    proof {
        assert(bytes@.take(n as int) =~= s);
        if saw_zero {
            let j = choose|j: int| 0 <= j < n && bytes@[j] == 0;
            assert(s[j] == 0);
        }
        if exists|j: int| 0 <= j < s.len() && s[j] == 0 {
            let j = choose|j: int| 0 <= j < s.len() && s[j] == 0;
            assert(bytes@[j] == 0);
        }
    }
    if n == 0 {
        false
    } else if saw_zero {
        true
    } else {
        10 * controls > 3 * n
    }
}

/// Relies on `String::from_utf8`: it succeeds exactly on valid UTF-8 and
/// then holds the characters that the bytes encode.
#[verifier::external_body]
fn string_from_utf8(bytes: Vec<u8>) -> (r: Option<String>)
    ensures
        r is Some <==> valid_utf8(bytes@),
        r is Some ==> r->0@ == decode_utf8(bytes@),
{
    String::from_utf8(bytes).ok()
}

/// Turns a file's bytes into its text, or reports `BinaryContent` when the
/// bytes are not valid UTF-8.
pub fn text_from_bytes(bytes: Vec<u8>) -> (r: Result<String, VaultError>)
    ensures
        r is Ok <==> valid_utf8(bytes@),
        r is Ok ==> r->Ok_0@ == decode_utf8(bytes@),
        r is Err ==> r->Err_0 == VaultError::BinaryContent,
{
    match string_from_utf8(bytes) {
        Some(s) => Ok(s),
        None => Err(VaultError::BinaryContent),
    }
}

} // verus!
