//! Decoding of the legacy single-byte encoding (Windows-1252) into Unicode.
//!
//! Every byte maps to exactly one Unicode scalar value, so decoding cannot
//! fail: bytes below 0x80 and from 0xA0 upward map to the code point of the
//! same value, and the 32 bytes in between map through a fixed table.

use vstd::prelude::*;

verus! {

/// The Windows-1252 value of one byte: the code point of the byte itself,
/// except in the 0x80..=0x9F range, which maps through the fixed table.
pub open spec fn win1252_char(b: u8) -> char {
    if b == 0x80 {
        '\u{20AC}'
    } else if b == 0x82 {
        '\u{201A}'
    } else if b == 0x83 {
        '\u{0192}'
    } else if b == 0x84 {
        '\u{201E}'
    } else if b == 0x85 {
        '\u{2026}'
    } else if b == 0x86 {
        '\u{2020}'
    } else if b == 0x87 {
        '\u{2021}'
    } else if b == 0x88 {
        '\u{02C6}'
    } else if b == 0x89 {
        '\u{2030}'
    } else if b == 0x8A {
        '\u{0160}'
    } else if b == 0x8B {
        '\u{2039}'
    } else if b == 0x8C {
        '\u{0152}'
    } else if b == 0x8E {
        '\u{017D}'
    } else if b == 0x91 {
        '\u{2018}'
    } else if b == 0x92 {
        '\u{2019}'
    } else if b == 0x93 {
        '\u{201C}'
    } else if b == 0x94 {
        '\u{201D}'
    } else if b == 0x95 {
        '\u{2022}'
    } else if b == 0x96 {
        '\u{2013}'
    } else if b == 0x97 {
        '\u{2014}'
    } else if b == 0x98 {
        '\u{02DC}'
    } else if b == 0x99 {
        '\u{2122}'
    } else if b == 0x9A {
        '\u{0161}'
    } else if b == 0x9B {
        '\u{203A}'
    } else if b == 0x9C {
        '\u{0153}'
    } else if b == 0x9E {
        '\u{017E}'
    } else if b == 0x9F {
        '\u{0178}'
    } else {
        b as char
    }
}

/// The whole decoded document: one character per byte, in order.
pub open spec fn decoded(bytes: Seq<u8>) -> Seq<char> {
    Seq::new(bytes.len(), |i: int| win1252_char(bytes[i]))
}

/// Relies on encoding_rs::WINDOWS_1252.decode_without_bom_handling: it maps
/// each input byte to the single character given by the Windows-1252 table
/// (the WHATWG index this crate implements), with no error possible since
/// all 256 bytes are assigned.
#[verifier::external_body]
pub fn decode_windows1252(bytes: &[u8]) -> (r: Vec<char>)
    ensures
        r@ == decoded(bytes@),
{
    let (text, _had_errors) = encoding_rs::WINDOWS_1252.decode_without_bom_handling(bytes);
    text.chars().collect()
}

} // verus!
