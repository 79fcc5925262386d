//! How numbers and bytes are written out as text.

use crate::util::printable;
use itertools::Itertools;
use vstd::prelude::*;

verus! {

/// The character for a decimal digit.
pub open spec fn digit_char(d: nat) -> char
    recommends
        d < 10,
{
    ('0' as u8 + d) as u8 as char
}

/// `n` in decimal, without leading zeros.
pub open spec fn decimal(n: nat) -> Seq<char>
    decreases n,
{
    if n < 10 {
        seq![digit_char(n)]
    } else {
        decimal(n / 10).push(digit_char(n % 10))
    }
}

/// The character for a hexadecimal digit, in lower case.
pub open spec fn hex_char(d: nat) -> char
    recommends
        d < 16,
{
    if d < 10 {
        ('0' as u8 + d) as u8 as char
    } else {
        ('a' as u8 + d - 10) as u8 as char
    }
}

/// `n` in lower-case hexadecimal, without leading zeros.
pub open spec fn hex(n: nat) -> Seq<char>
    decreases n,
{
    if n < 16 {
        seq![hex_char(n)]
    } else {
        hex(n / 16).push(hex_char(n % 16))
    }
}

/// A byte as exactly two hexadecimal digits.
pub open spec fn hex_byte(b: u8) -> Seq<char> {
    seq![hex_char(b as nat / 16), hex_char(b as nat % 16)]
}

/// `digits` with zeros in front until it is `width` characters long.
pub open spec fn zero_padded(digits: Seq<char>, width: nat) -> Seq<char> {
    if digits.len() >= width {
        digits
    } else {
        Seq::new((width - digits.len()) as nat, |i: int| '0') + digits
    }
}

/// An offset as `0x` followed by at least four hexadecimal digits.
pub open spec fn hex_offset(n: nat) -> Seq<char> {
    seq!['0', 'x'] + zero_padded(hex(n), 4)
}

/// What stands for a byte in the text column of a dump.
pub open spec fn printable_char(b: u8) -> char {
    if 32 <= b <= 126 {
        b as char
    } else {
        '.'
    }
}

/// Every byte of `bytes` in decimal.
pub open spec fn decimals(bytes: Seq<u8>) -> Seq<Seq<char>> {
    Seq::new(bytes.len(), |i: int| decimal(bytes[i] as nat))
}

/// Every byte of `bytes` as two hexadecimal digits.
pub open spec fn hex_bytes(bytes: Seq<u8>) -> Seq<Seq<char>> {
    Seq::new(bytes.len(), |i: int| hex_byte(bytes[i]))
}

/// The text column of a dump for `bytes`: one character for each byte.
pub open spec fn printable_text(bytes: Seq<u8>) -> Seq<char> {
    Seq::new(bytes.len(), |i: int| printable_char(bytes[i]))
}

/// The pieces of `parts` one after the other, with `sep` between neighbours.
pub open spec fn joined(parts: Seq<Seq<char>>, sep: Seq<char>) -> Seq<char>
    decreases parts.len(),
{
    if parts.len() == 0 {
        Seq::empty()
    } else if parts.len() == 1 {
        parts[0]
    } else {
        joined(parts.drop_last(), sep) + sep + parts.last()
    }
}

/// `piece` written `times` times.
pub open spec fn repeated(piece: Seq<char>, times: nat) -> Seq<char>
    decreases times,
{
    if times == 0 {
        Seq::empty()
    } else {
        repeated(piece, (times - 1) as nat) + piece
    }
}

/// `itertools::Itertools::format` under `{}`: every byte in decimal, as
/// `Display` writes a `u8`, with `sep` between neighbours.
#[verifier::external_body]
pub(crate) fn join_decimal(bytes: &[u8], sep: &str) -> (text: String)
    ensures
        text@ == joined(decimals(bytes@), sep@),
{
    format!("{}", bytes.iter().format(sep))
}

/// `itertools::Itertools::format` under `{:02x}`: every byte as two
/// lower-case hexadecimal digits, with `sep` between neighbours.
#[verifier::external_body]
pub(crate) fn join_hex(bytes: &[u8], sep: &str) -> (text: String)
    ensures
        text@ == joined(hex_bytes(bytes@), sep@),
{
    format!("{:02x}", bytes.iter().format(sep))
}

/// `itertools::Itertools::format` with an empty separator over the bytes
/// mapped through `printable`: one character for each byte.
#[verifier::external_body]
pub(crate) fn join_printable(bytes: &[u8]) -> (text: String)
    ensures
        text@ == printable_text(bytes@),
{
    format!("{}", bytes.iter().map(printable).format(""))
}

/// `format!` under `{:#06x}`: `0x`, then the number in lower-case
/// hexadecimal, filled with zeros to four digits.
#[verifier::external_body]
pub(crate) fn format_offset(addr: usize) -> (text: String)
    ensures
        text@ == hex_offset(addr as nat),
{
    format!("{:#06x}", addr)
}

} // verus!
