//! Identifiers that are drawn afresh.

use vstd::prelude::*;

use crate::text;

verus! {

/// A lower-case hexadecimal digit.
pub open spec fn hex_digit(c: char) -> bool {
    '0' <= c <= '9' || 'a' <= c <= 'f'
}

/// The text of a version 7 UUID without hyphens: thirty-two lower-case hexadecimal digits, the
/// thirteenth of which is the version.
pub open spec fn simple_v7(s: Seq<char>) -> bool {
    &&& s.len() == 32
    &&& forall|i: int| 0 <= i < s.len() ==> hex_digit(#[trigger] s[i])
    &&& s[12] == '7'
}

/// `Uuid::now_v7` makes a version 7 UUID from the time and random bits, and `Uuid::simple`
/// writes it without hyphens. Of the text only its form is stated: which UUID it is rests on
/// the time and on chance.
#[verifier::external_body]
pub(crate) fn now_v7_simple() -> (r: String)
    ensures
        simple_v7(r@),
{
    uuid::Uuid::now_v7().simple().to_string()
}

/// The sixteen bytes of a version 4 UUID.
pub open spec fn v4_form(bytes: Seq<u8>) -> bool {
    &&& bytes.len() == 16
    &&& bytes[6] / 16 == 4
    &&& bytes[8] / 64 == 2
}

/// `Uuid::new_v4` makes a version 4 UUID from random bits, and `Uuid::as_bytes` gives its
/// bytes. Of the bytes only the version and the variant are stated: the rest is chance.
#[verifier::external_body]
pub(crate) fn new_v4_bytes() -> (r: Vec<u8>)
    ensures
        v4_form(r@),
{
    uuid::Uuid::new_v4().as_bytes().to_vec()
}

/// The number that the first eight bytes write, least significant byte first.
pub open spec fn little_endian(bytes: Seq<u8>) -> int
    recommends
        bytes.len() >= 8,
{
    bytes[0] + 0x100 * bytes[1] + 0x1_0000 * bytes[2] + 0x100_0000 * bytes[3] + 0x1_0000_0000
        * bytes[4] + 0x100_0000_0000 * bytes[5] + 0x1_0000_0000_0000 * bytes[6]
        + 0x100_0000_0000_0000 * bytes[7]
}

/// The epoch that a UUID's bytes stand for.
pub fn epoch_of(bytes: &Vec<u8>) -> (r: u64)
    requires
        bytes@.len() >= 8,
    ensures
        r == little_endian(bytes@),
{
    bytes[0] as u64 + 0x100 * (bytes[1] as u64) + 0x1_0000 * (bytes[2] as u64) + 0x100_0000 * (
    bytes[3] as u64) + 0x1_0000_0000 * (bytes[4] as u64) + 0x100_0000_0000 * (bytes[5] as u64)
        + 0x1_0000_0000_0000 * (bytes[6] as u64) + 0x100_0000_0000_0000 * (bytes[7] as u64)
}

/// An epoch for a daemon that boots now.
pub fn boot_epoch() -> (r: u64)
    ensures
        exists|bytes: Seq<u8>| v4_form(bytes) && r == #[trigger] little_endian(bytes),
{
    let bytes = new_v4_bytes();
    epoch_of(&bytes)
}

/// The id of a pending approval: the prefix of its kind and a fresh UUID.
pub open spec fn pending_id_form(id: Seq<char>, kind: Seq<char>) -> bool {
    exists|uuid: Seq<char>| #[trigger] simple_v7(uuid) && id == kind + uuid
}

/// A fresh id for a pending approval; `kind` is its prefix.
pub fn fresh_pending_id(kind: &str) -> (r: String)
    ensures
        pending_id_form(r@, kind@),
{
    let uuid = now_v7_simple();
    text::join2(kind, uuid.as_str())
}

} // verus!
