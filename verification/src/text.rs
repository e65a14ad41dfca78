//! UTF-8 text and zero-terminated fields.
use crate::error::{DecodeError, DecodeResult};
use vstd::prelude::*;
use vstd::utf8::{decode_utf8, encode_utf8, valid_utf8};

verus! {

/// The error type of `core::str::from_utf8`. It is opaque here: the library
/// only tells it from success.
#[verifier::external_type_specification]
#[verifier::external_body]
pub struct ExUtf8Error(core::str::Utf8Error);

/// `core::str::from_utf8` accepts exactly the byte strings that are valid
/// UTF-8, and the string slice it returns then consists of the same bytes.
pub assume_specification[ core::str::from_utf8 ](v: &[u8]) -> (r: Result<
    &str,
    core::str::Utf8Error,
>)
    ensures
        r is Ok <==> valid_utf8(v@),
        r matches Ok(s) ==> encode_utf8(s@) == v@,
;

/// `n` is the offset of the first zero byte of `field`.
pub open spec fn is_first_nul(field: Seq<u8>, n: int) -> bool {
    &&& 0 <= n < field.len()
    &&& field[n] == 0
    &&& forall|j: int| 0 <= j < n ==> field[j] != 0
}

/// The offset of the first zero byte of `field`, if it has one.
pub open spec fn first_nul(field: Seq<u8>) -> Option<int> {
    if exists|n: int| is_first_nul(field, n) {
        Some(choose|n: int| is_first_nul(field, n))
    } else {
        None
    }
}

/// What a zero-terminated field of fixed size holds: its bytes up to and
/// including the first zero byte. A field that starts with a zero byte holds
/// nothing, and neither does a field without any zero byte.
pub open spec fn terminated_prefix(field: Seq<u8>) -> Option<Seq<u8>> {
    match first_nul(field) {
        Some(n) => if n > 0 {
            Some(field.subrange(0, n + 1))
        } else {
            None
        },
        None => None,
    }
}

/// A field that starts with a zero byte holds nothing.
pub proof fn lemma_empty_field(field: Seq<u8>)
    requires
        field.len() > 0,
        field[0] == 0,
    ensures
        terminated_prefix(field) is None,
{
}

/// A field without a zero byte holds nothing.
pub proof fn lemma_unterminated_field(field: Seq<u8>)
    requires
        !field.contains(0u8),
    ensures
        terminated_prefix(field) is None,
{
}

/// A field whose first zero byte lies at `n`, after its first byte, holds
/// its first `n + 1` bytes: the bytes before the zero byte, and the zero byte.
pub proof fn lemma_terminated_field(field: Seq<u8>, n: int)
    requires
        is_first_nul(field, n),
        n > 0,
    ensures
        terminated_prefix(field) == Some(field.subrange(0, n + 1)),
{
}

/// The offset of the first zero byte of `bytes`.
pub fn find_nul(bytes: &[u8]) -> (r: Option<usize>)
    ensures
        match r {
            Some(n) => is_first_nul(bytes@, n as int) && first_nul(bytes@) == Some(n as int),
            None => !bytes@.contains(0u8) && first_nul(bytes@) is None,
        },
{
    let mut i: usize = 0;
    while i < bytes.len()
        invariant
            i <= bytes@.len(),
            forall|j: int| 0 <= j < i ==> bytes@[j] != 0,
        decreases bytes@.len() - i,
    {
        if bytes[i] == 0 {
            return Some(i);
        }
        i += 1;
    }
    None
}

/// The text that `bytes` encode in UTF-8, as an owned string.
pub fn decode_text(bytes: &[u8]) -> (r: DecodeResult<String>)
    ensures
        match r {
            Ok(text) => valid_utf8(bytes@) && text@ == decode_utf8(bytes@),
            Err(e) => !valid_utf8(bytes@) && e == DecodeError::InvalidEncoding,
        },
{
    match core::str::from_utf8(bytes) {
        Ok(text) => {
            proof {
                vstd::utf8::encode_utf8_decode_utf8(text@);
            }
            Ok(text.to_owned())
        },
        Err(_) => Err(DecodeError::InvalidEncoding),
    }
}

} // verus!
