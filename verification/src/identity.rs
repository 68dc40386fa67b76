//! Identity identifiers: 128-bit values whose text form names the identity's
//! directory in the data directory ("directory name = identity UUID").

use vstd::prelude::*;

verus! {

/// The lowercase hexadecimal digit for a value below 16.
pub open spec fn hex_char_of(d: u8) -> char
    recommends
        d < 16,
{
    if d == 0 {
        '0'
    } else if d == 1 {
        '1'
    } else if d == 2 {
        '2'
    } else if d == 3 {
        '3'
    } else if d == 4 {
        '4'
    } else if d == 5 {
        '5'
    } else if d == 6 {
        '6'
    } else if d == 7 {
        '7'
    } else if d == 8 {
        '8'
    } else if d == 9 {
        '9'
    } else if d == 10 {
        'a'
    } else if d == 11 {
        'b'
    } else if d == 12 {
        'c'
    } else if d == 13 {
        'd'
    } else if d == 14 {
        'e'
    } else {
        'f'
    }
}

/// The two lowercase hex digits of one byte.
pub open spec fn hex_pair_of(b: u8) -> Seq<char> {
    seq![hex_char_of(b / 16), hex_char_of(b % 16)]
}

/// Byte `i` of a 128-bit identifier, big-endian: byte 0 is the most
/// significant.
pub open spec fn id_byte(id: u128, i: int) -> u8
    recommends
        0 <= i < 16,
{
    ((id >> ((8 * (15 - i)) as u128)) & 0xff) as u8
}

/// The hex digits of bytes `from` (inclusive) to `to` (exclusive) of an
/// identifier.
pub open spec fn hex_bytes_of(id: u128, from: int, to: int) -> Seq<char>
    decreases to - from,
{
    if from >= to {
        Seq::empty()
    } else {
        hex_pair_of(id_byte(id, from)) + hex_bytes_of(id, from + 1, to)
    }
}

/// The canonical lowercase hyphenated text form of an identifier: the 32 hex
/// digits of its 16 big-endian bytes, with hyphens after bytes 4, 6, 8
/// and 10.
pub open spec fn hyphenated_of(id: u128) -> Seq<char> {
    hex_bytes_of(id, 0, 4) + seq!['-'] + hex_bytes_of(id, 4, 6) + seq!['-'] + hex_bytes_of(id, 6, 8)
        + seq!['-'] + hex_bytes_of(id, 8, 10) + seq!['-'] + hex_bytes_of(id, 10, 16)
}

pub proof fn lemma_hex_bytes_of_len(id: u128, from: int, to: int)
    requires
        from <= to,
    ensures
        hex_bytes_of(id, from, to).len() == 2 * (to - from),
    decreases to - from,
{
    if from < to {
        lemma_hex_bytes_of_len(id, from + 1, to);
    }
}

/// The hyphenated form is always 36 characters long.
pub proof fn lemma_hyphenated_len(id: u128)
    ensures
        hyphenated_of(id).len() == 36,
{
    lemma_hex_bytes_of_len(id, 0, 4);
    lemma_hex_bytes_of_len(id, 4, 6);
    lemma_hex_bytes_of_len(id, 6, 8);
    lemma_hex_bytes_of_len(id, 8, 10);
    lemma_hex_bytes_of_len(id, 10, 16);
}

/// What `uuid::Uuid::parse_str` makes of a string: the identifier it names,
/// or nothing when the string is no UUID. Parsing is a pure function of the
/// string alone.
pub uninterp spec fn uuid_str_value(s: Seq<char>) -> Option<u128>;

/// Relies on `uuid::Uuid::new_v4`: a fresh identifier drawn from system
/// randomness. Nothing is promised of the value.
#[verifier::external_body]
pub(crate) fn new_identity_id() -> (r: u128) {
    uuid::Uuid::new_v4().as_u128()
}

/// Relies on `uuid::Uuid::to_string` (through `from_u128`, which lays the
/// value out as 16 big-endian bytes): the result is the canonical lowercase
/// hyphenated form, and `uuid::Uuid::parse_str` accepts that form back as
/// the same identifier.
#[verifier::external_body]
pub(crate) fn format_identity_id(id: u128) -> (r: String)
    ensures
        r@ == hyphenated_of(id),
        uuid_str_value(r@) == Some(id),
{
    uuid::Uuid::from_u128(id).to_string()
}

/// Relies on `uuid::Uuid::parse_str`: success and value are a pure function
/// of the string alone.
#[verifier::external_body]
pub(crate) fn parse_identity_id(s: &str) -> (r: Option<u128>)
    ensures
        r == uuid_str_value(s@),
{
    match uuid::Uuid::parse_str(s) {
        Ok(u) => Some(u.as_u128()),
        Err(_) => None,
    }
}

} // verus!
