use vstd::prelude::*;

use crate::decimal::digit_char;

verus! {

/// The error that `uuid::Uuid::parse_str` reports for text that is no UUID.
#[verifier::external_type_specification]
#[verifier::external_body]
pub struct ExUuidError(uuid::Error);

/// What `uuid::Uuid::parse_str` gives for `text`, as the UUID's 128-bit
/// big-endian value (`Uuid::as_u128`), or `None` where it reports an error.
pub uninterp spec fn uuid_parse(text: Seq<char>) -> Option<u128>;

/// The lower-case hexadecimal digit of `d` (below 16).
pub open spec fn hex_digit(d: nat) -> char {
    if d < 10 {
        digit_char(d)
    } else if d == 10 {
        'a'
    } else if d == 11 {
        'b'
    } else if d == 12 {
        'c'
    } else if d == 13 {
        'd'
    } else if d == 14 {
        'e'
    } else {
        'f'
    }
}

/// The last `count` hexadecimal digits of `n`, most significant first,
/// with leading zeros.
pub open spec fn hex_chars(n: nat, count: nat) -> Seq<char>
    decreases count,
{
    if count == 0 {
        seq![]
    } else {
        hex_chars(n / 16, (count - 1) as nat).push(hex_digit(n % 16))
    }
}

/// The text that `uuid::Uuid`'s `Display` writes for the UUID whose 128-bit
/// big-endian value is `id`: its 32 lower-case hexadecimal digits, with a
/// hyphen after the 8th, 12th, 16th and 20th.
pub open spec fn uuid_text(id: u128) -> Seq<char> {
    let h = hex_chars(id as nat, 32);
    h.subrange(0, 8) + seq!['-'] + h.subrange(8, 12) + seq!['-'] + h.subrange(12, 16) + seq!['-']
        + h.subrange(16, 20) + seq!['-'] + h.subrange(20, 32)
}

/// Calls `uuid::Uuid::parse_str` on `text` and hands back the UUID as its
/// 128-bit value (`Uuid::as_u128`). Claimed: the result is the one named
/// `uuid_parse(text@)`, and an error comes exactly where that name is `None`.
#[verifier::external_body]
pub(crate) fn parse_uuid(text: &str) -> (r: Result<u128, uuid::Error>)
    ensures
        match r {
            Ok(id) => uuid_parse(text@) == Some(id),
            Err(_) => uuid_parse(text@) is None,
        },
{
    match uuid::Uuid::parse_str(text) {
        Ok(u) => Ok(u.as_u128()),
        Err(e) => Err(e),
    }
}

/// Calls `to_string` (`Display`) on `uuid::Uuid::from_u128(id)`. Claimed:
/// the text is `uuid_text(id)`, the lower-case hyphenated form that
/// `Display` writes (through `LowerHex`) of the UUID's bytes, which
/// `from_u128` takes big-endian; and `Uuid::parse_str` reads it back as
/// `id` (the crate documents that its parser accepts every form it writes).
#[verifier::external_body]
pub(crate) fn uuid_to_string(id: u128) -> (s: String)
    ensures
        s@ == uuid_text(id),
        uuid_parse(s@) == Some(id),
{
    uuid::Uuid::from_u128(id).to_string()
}

/// The canonical text of the UUID whose 128-bit value is `id`: lower-case
/// and hyphenated.
pub fn id_text(id: u128) -> (s: String)
    ensures
        s@ == uuid_text(id),
        uuid_parse(s@) == Some(id),
{
    uuid_to_string(id)
}

/// Whether `id` is a version-4 (random) UUID: version nibble 4 and the
/// RFC 4122 variant bits `10`.
pub open spec fn is_v4_uuid(id: u128) -> bool {
    (id >> 76u128) & 15u128 == 4u128 && (id >> 62u128) & 3u128 == 2u128
}

/// Calls `uuid::Uuid::new_v4` and hands back the UUID as its 128-bit value.
/// Claimed: it is a version-4 UUID (`new_v4` masks a random number and sets
/// the version and variant bits); nothing is claimed of its other bits,
/// which are random.
#[verifier::external_body]
pub(crate) fn new_random_id() -> (id: u128)
    ensures
        is_v4_uuid(id),
{
    uuid::Uuid::new_v4().as_u128()
}

} // verus!
