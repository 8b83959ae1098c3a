use vstd::prelude::*;

verus! {

use crate::records::Message;

/// Bit pattern of the `f32` value 5.0.
pub const MAX_RATING_BITS: u32 = 0x40A0_0000;

/// Bit pattern of the `f32` value -0.0.
pub const NEGATIVE_ZERO_BITS: u32 = 0x8000_0000;

/// Whether the `f32` with bit pattern `bits` lies in [0.0, 5.0].
///
/// Non-negative finite floats are ordered as their bit patterns, so the
/// values from +0.0 up to 5.0 are exactly the patterns up to that of 5.0;
/// -0.0 equals 0.0 and is in range too. Every other pattern is negative,
/// greater than 5.0, infinite or NaN.
pub open spec fn rating_in_range(bits: u32) -> bool {
    bits <= MAX_RATING_BITS || bits == NEGATIVE_ZERO_BITS
}

pub fn is_valid_rating(bits: u32) -> (r: bool)
    ensures
        r == rating_in_range(bits),
{
    bits <= MAX_RATING_BITS || bits == NEGATIVE_ZERO_BITS
}

/// Whether every field in `fields` is non-empty.
pub open spec fn all_present(fields: Seq<&str>) -> bool {
    forall|i: int| 0 <= i < fields.len() ==> (#[trigger] fields[i])@.len() > 0
}

/// Fails with `InvalidPayload` exactly when one of the fields is empty.
pub fn validate_required_fields(fields: Vec<&str>) -> (r: Result<(), Message>)
    ensures
        r is Ok <==> all_present(fields@),
        r is Err ==> r->Err_0 is InvalidPayload,
{
    let mut i: usize = 0;
    while i < fields.len()
        invariant
            0 <= i <= fields.len(),
            forall|j: int| 0 <= j < i ==> (#[trigger] fields@[j])@.len() > 0,
        decreases fields.len() - i,
    {
        if fields[i].is_empty() {
            return Err(Message::InvalidPayload("One or more required fields are empty".to_string()));
        }
        i = i + 1;
    }
    Ok(())
}

/// True when the text holds both an `@` and a `.`.
pub open spec fn email_shape(s: Seq<char>) -> bool {
    s.contains('@') && s.contains('.')
}

fn contains_char(s: &str, c: char) -> (r: bool)
    ensures
        r == s@.contains(c),
{
    let n = s.unicode_len();
    let mut i: usize = 0;
    while i < n
        invariant
            n == s@.len(),
            0 <= i <= n,
            forall|j: int| 0 <= j < i ==> s@[j] != c,
        decreases n - i,
    {
        if s.get_char(i) == c {
            return true;
        }
        i = i + 1;
    }
    false
}

pub fn is_valid_email(email: &str) -> (r: bool)
    ensures
        r == email_shape(email@),
{
    contains_char(email, '@') && contains_char(email, '.')
}

} // verus!
