//! Text inside a method argument: UTF-8 bytes up to a terminating zero.
use vstd::prelude::*;
use vstd::slice::slice_subrange;
use vstd::utf8::{char_is_scalar, char_u32_cast, decode_utf8, encode_scalar, encode_utf8, valid_utf8};

verus! {

/// Why bytes are not terminated text.
#[derive(Debug, Clone, Copy, PartialEq, Eq, Structural)]
pub enum TextError {
    /// No byte is zero.
    InvalidByteSlice,
    /// The bytes before the first zero are not UTF-8.
    InvalidCharacters,
}

/// The first zero of `raw` is at index `n`.
pub open spec fn terminated_at(raw: Seq<u8>, n: int) -> bool {
    &&& 0 <= n < raw.len()
    &&& raw[n] == 0
    &&& forall|j: int| 0 <= j < n ==> raw[j] != 0
}

/// The text that `raw` holds before its first zero.
pub open spec fn terminated_text(raw: Seq<u8>) -> Result<Seq<char>, TextError> {
    if exists|n: int| terminated_at(raw, n) {
        let n = choose|n: int| terminated_at(raw, n);
        if valid_utf8(raw.take(n)) {
            Ok(decode_utf8(raw.take(n)))
        } else {
            Err(TextError::InvalidCharacters)
        }
    } else {
        Err(TextError::InvalidByteSlice)
    }
}

/// A sequence has at most one first zero.
pub proof fn lemma_terminator_unique(raw: Seq<u8>, m: int, n: int)
    requires
        terminated_at(raw, m),
        terminated_at(raw, n),
    ensures
        m == n,
{
    if m < n {
        assert(raw[m] != 0);
    } else if n < m {
        assert(raw[n] != 0);
    }
}

proof fn lemma_zero_in_scalar(v: u32)
    ensures
        encode_scalar(v).contains(0) <==> v == 0,
{
    let bytes = encode_scalar(v);
    assert(v <= 0x7f ==> ((v & 0x7f) as u8 == 0 <==> v == 0)) by (bit_vector);
    assert(0xc0 | ((v >> 6) & 0x1f) as u8 != 0) by (bit_vector);
    assert(0xe0 | ((v >> 12) & 0x0f) as u8 != 0) by (bit_vector);
    assert(0xf0 | ((v >> 18) & 0x7) as u8 != 0) by (bit_vector);
    assert(0x80 | (v & 0x3f) as u8 != 0) by (bit_vector);
    assert(0x80 | ((v >> 6) & 0x3f) as u8 != 0) by (bit_vector);
    assert(0x80 | ((v >> 12) & 0x3f) as u8 != 0) by (bit_vector);
    if v == 0 {
        assert(bytes[0] == 0);
    }
}

/// The bytes of a text hold a zero exactly where the text holds the character zero.
pub proof fn law_zero_byte_is_zero_character(s: Seq<char>)
    ensures
        encode_utf8(s).contains(0) <==> s.contains('\0'),
    decreases s.len(),
{
    if s.len() > 0 {
        let head = encode_scalar(s[0] as u32);
        let later = s.drop_first();
        let bytes = encode_utf8(s);
        lemma_zero_in_scalar(s[0] as u32);
        law_zero_byte_is_zero_character(later);
        char_is_scalar(s[0]);
        char_u32_cast(s[0], s[0] as u32);
        assert(s[0] as u32 == 0 <==> s[0] == '\0');
        if head.contains(0) {
            let i = choose|i: int| 0 <= i < head.len() && head[i] == 0;
            assert(bytes[i] == 0);
        }
        if encode_utf8(later).contains(0) {
            let i = choose|i: int| 0 <= i < encode_utf8(later).len() && encode_utf8(later)[i] == 0;
            assert(bytes[head.len() + i] == 0);
            let j = choose|j: int| 0 <= j < later.len() && later[j] == '\0';
            assert(s[j + 1] == '\0');
        }
        if bytes.contains(0) {
            let i = choose|i: int| 0 <= i < bytes.len() && bytes[i] == 0;
            if i < head.len() {
                assert(head[i] == 0);
            } else {
                assert(encode_utf8(later)[i - head.len()] == 0);
            }
        }
        if s.contains('\0') {
            let i = choose|i: int| 0 <= i < s.len() && s[i] == '\0';
            if i > 0 {
                assert(later[i - 1] == '\0');
            }
        }
    }
}

/// Whether the text holds the character zero.
pub fn holds_zero(text: &str) -> (held: bool)
    ensures
        held == text@.contains('\0'),
{
    let bytes = text.as_bytes();
    proof {
        law_zero_byte_is_zero_character(text@);
    }
    let mut i: usize = 0;
    while i < bytes.len()
        invariant
            i <= bytes.len(),
            forall|j: int| 0 <= j < i ==> bytes@[j] != 0,
            bytes@.contains(0) <==> text@.contains('\0'),
        decreases bytes.len() - i,
    {
        if bytes[i] == 0 {
            assert(bytes@.contains(bytes@[i as int]));
            return true;
        }
        i = i + 1;
    }
    false
}

/// Calls `std::str::from_utf8`, which gives the text that the bytes encode, and fails exactly where
/// they are not valid UTF-8.
#[verifier::external_body]
fn text_of_bytes(bytes: &[u8]) -> (text: Option<&str>)
    ensures
        text is Some <==> valid_utf8(bytes@),
        text matches Some(t) ==> t@ == decode_utf8(bytes@),
{
    std::str::from_utf8(bytes).ok()
}

/// Takes the text before the first zero of `raw`.
pub fn cstr_bytes_to_string(raw: &[u8]) -> (text: Result<String, TextError>)
    ensures
        match terminated_text(raw@) {
            Ok(chars) => text matches Ok(t) && t@ == chars,
            Err(e) => text matches Err(x) && x == e,
        },
{
    let mut n: usize = 0;
    while n < raw.len()
        invariant
            n <= raw.len(),
            forall|j: int| 0 <= j < n ==> raw@[j] != 0,
        decreases raw.len() - n,
    {
        if raw[n] == 0 {
            proof {
                assert(terminated_at(raw@, n as int));
                lemma_terminator_unique(raw@, n as int, choose|m: int| terminated_at(raw@, m));
                assert(raw@.subrange(0, n as int) == raw@.take(n as int));
            }
            return match text_of_bytes(slice_subrange(raw, 0, n)) {
                Some(text) => Ok(text.to_owned()),
                None => Err(TextError::InvalidCharacters),
            };
        }
        n = n + 1;
    }
    Err(TextError::InvalidByteSlice)
}

} // verus!
