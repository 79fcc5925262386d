//! Addresses, the hex dump and the ADS message envelope.

use crate::le::{le_u32, read_u32};
pub use crate::netid::AmsNetId;
use crate::text::{
    format_offset, hex, hex_bytes, hex_offset, join_hex, join_printable, joined, printable_char,
    printable_text, repeated,
};
use vstd::prelude::*;
use vstd::slice::slice_subrange;
use vstd::string::StringExecFns;

verus! {

/// The UDP port on which bus couplers answer.
pub const BECKHOFF_BC_UDP_PORT: u16 = 48847;

/// The TCP port of the ADS protocol.
pub const BECKHOFF_TCP_PORT: u16 = 48898;

/// The UDP port of the general UDP protocol, on which embedded PCs answer.
pub const BECKHOFF_UDP_PORT: u16 = 48899;

/// The number that every message of the general UDP protocol begins with.
pub const BECKHOFF_UDP_MAGIC: u32 = 0x71146603;

/// The identifier under which the scanner asks.
pub const FWDER_NETID: [u8; 6] = [10, 1, 0, 0, 1, 1];

/// The character shown for a byte in the text column of a dump: the byte
/// itself where it prints, from 32 to 126, and a dot for any other.
pub fn printable(ch: &u8) -> (c: char)
    ensures
        c == printable_char(*ch),
{
    if *ch >= 32 && *ch <= 126 {
        *ch as char
    } else {
        '.'
    }
}

/// One line of a dump: the offset, up to sixteen bytes in hexadecimal, filled
/// up to the width of sixteen, and the same bytes as text.
pub open spec fn dump_line(addr: nat, line: Seq<u8>) -> Seq<char> {
    hex_offset(addr) + seq![':', ' '] + joined(hex_bytes(line), seq![' ']) + repeated(
        seq![' ', ' ', ' '],
        (16 - line.len()) as nat,
    ) + seq![' ', '|', ' '] + printable_text(line)
}

/// The bytes of `data` that line `i` of its dump shows.
pub open spec fn dump_chunk(data: Seq<u8>, i: int) -> Seq<u8> {
    data.subrange(16 * i, if 16 * i + 16 <= data.len() { 16 * i + 16 } else { data.len() as int })
}

/// How many lines the dump of `len` bytes has.
pub open spec fn dump_line_count(len: nat) -> nat {
    (len + 15) / 16
}

fn dump_one(addr: usize, line: &[u8]) -> (text: String)
    requires
        line@.len() <= 16,
    ensures
        text@ == dump_line(addr as nat, line@),
{
    proof {
        reveal_strlit(": ");
        reveal_strlit(" ");
        reveal_strlit("   ");
        reveal_strlit(" | ");
    }
    let ghost gap = seq![' ', ' ', ' '];
    assert(": "@ =~= seq![':', ' ']);
    assert(" "@ =~= seq![' ']);
    assert("   "@ =~= gap);
    assert(" | "@ =~= seq![' ', '|', ' ']);
    let mut text = format_offset(addr);
    text.append(": ");
    let hex = join_hex(line, " ");
    text.append(hex.as_str());
    let ghost before = text@;
    let mut k: usize = line.len();
    assert(text@ =~= before + repeated(gap, 0));
    while k < 16
        invariant
            line@.len() <= k <= 16,
            "   "@ == gap,
            text@ == before + repeated(gap, (k - line@.len()) as nat),
        decreases 16 - k,
    {
        text.append("   ");
        k = k + 1;
        assert(text@ =~= before + repeated(gap, (k - line@.len()) as nat));
    }
    text.append(" | ");
    let tail = join_printable(line);
    text.append(tail.as_str());
    text
}

/// The lines of the dump of `data`: line `i` shows the bytes from offset
/// `16 * i` on.
pub open spec fn dump_text(data: Seq<u8>) -> Seq<Seq<char>> {
    Seq::new(dump_line_count(data.len()), |i: int| dump_line((16 * i) as nat, dump_chunk(data, i)))
}

/// What the strings of `lines` hold.
pub open spec fn lines_view(lines: Seq<String>) -> Seq<Seq<char>> {
    Seq::new(lines.len(), |i: int| lines[i]@)
}

/// The dump of `data`, sixteen bytes to a line.
pub fn hexdump(data: &[u8]) -> (lines: Vec<String>)
    ensures
        lines_view(lines@) == dump_text(data@),
{
    let mut lines: Vec<String> = Vec::new();
    let n = data.len();
    let mut addr: usize = 0;
    while addr < n
        invariant
            n == data@.len(),
            addr <= n,
            addr % 16 == 0 || addr == n,
            lines@.len() == dump_line_count(addr as nat),
            forall|i: int|
                0 <= i < lines@.len() ==> (#[trigger] lines@[i])@ == dump_line(
                    (16 * i) as nat,
                    dump_chunk(data@, i),
                ),
        decreases n - addr,
    {
        let end = if n - addr >= 16 { addr + 16 } else { n };
        let line = slice_subrange(data, addr, end);
        assert(line@ == dump_chunk(data@, lines@.len() as int));
        let text = dump_one(addr, line);
        lines.push(text);
        addr = end;
    }
    assert(lines_view(lines@) =~= dump_text(data@));
    lines
}

/// Bytes in hexadecimal with blanks between them take three characters a
/// byte, less one.
pub proof fn lemma_hex_width(line: Seq<u8>)
    requires
        line.len() >= 1,
    ensures
        joined(hex_bytes(line), seq![' ']).len() == 3 * line.len() - 1,
    decreases line.len(),
{
    if line.len() > 1 {
        let front = line.drop_last();
        lemma_hex_width(front);
        assert(hex_bytes(line).drop_last() =~= hex_bytes(front));
    }
}

/// A gap of three blanks, repeated, is three characters a time.
pub proof fn lemma_gap_width(times: nat)
    ensures
        repeated(seq![' ', ' ', ' '], times).len() == 3 * times,
    decreases times,
{
    if times > 0 {
        lemma_gap_width((times - 1) as nat);
    }
}

/// An offset takes six characters while it is below 0x10000, and more from
/// there on.
pub proof fn lemma_offset_width(addr: nat)
    ensures
        hex(addr).len() >= 1,
        addr < 0x10000 ==> hex_offset(addr).len() == 6,
        addr >= 0x10000 ==> hex_offset(addr).len() > 6,
    decreases addr,
{
    if addr >= 16 {
        lemma_offset_width(addr / 16);
    }
    if addr < 0x10000 {
        reveal_with_fuel(hex, 5);
    } else {
        lemma_hex_long(addr);
    }
}

/// A number from 0x10000 on has at least five hexadecimal digits.
proof fn lemma_hex_long(n: nat)
    requires
        n >= 0x10000,
    ensures
        hex(n).len() >= 5,
    decreases n,
{
    if n / 16 >= 0x10000 {
        lemma_hex_long(n / 16);
    } else {
        reveal_with_fuel(hex, 5);
        assert(n / 16 >= 0x1000);
    }
}

/// The columns of a line of a dump do not depend on how many bytes it
/// shows: after the offset and 50 more characters stands the bar, and two
/// characters behind the bar the text begins. While the offsets are below
/// 0x10000, the bar is character 56 of every line.
pub proof fn lemma_dump_line_columns(addr: nat, line: Seq<u8>)
    requires
        1 <= line.len() <= 16,
    ensures
        dump_line(addr, line).len() == hex_offset(addr).len() + 52 + line.len(),
        addr < 0x10000 ==> dump_line(addr, line)[56] == '|',
        dump_line(addr, line)[(hex_offset(addr).len() + 50) as int] == '|',
        dump_line(addr, line).subrange(
            (hex_offset(addr).len() + 52) as int,
            dump_line(addr, line).len() as int,
        ) == printable_text(line),
        dump_line(addr, line).subrange(0, hex_offset(addr).len() as int) == hex_offset(addr),
{
    lemma_hex_width(line);
    lemma_gap_width((16 - line.len()) as nat);
    lemma_offset_width(addr);
    let off = hex_offset(addr).len();
    let text = dump_line(addr, line);
    assert(text.subrange((off + 52) as int, text.len() as int) =~= printable_text(line));
    assert(text.subrange(0, off as int) =~= hex_offset(addr));
}

/// Whether two IPv4 addresses agree on every bit that `netmask` keeps.
pub open spec fn same_net(addr1: u32, addr2: u32, netmask: u32) -> bool {
    addr1 & netmask == addr2 & netmask
}

/// Tells whether `addr1` and `addr2` lie in the same network under
/// `netmask`.
pub fn in_same_net(addr1: u32, addr2: u32, netmask: u32) -> (same: bool)
    ensures
        same == same_net(addr1, addr2, netmask),
{
    addr1 & netmask == addr2 & netmask
}

/// Under the netmask of all ones only equal addresses share a network; under
/// the netmask 0 all addresses do.
pub proof fn lemma_same_net_extremes(addr1: u32, addr2: u32)
    ensures
        same_net(addr1, addr2, 0xffff_ffff) <==> addr1 == addr2,
        same_net(addr1, addr2, 0),
{
    assert(addr1 & 0xffff_ffff == addr1) by (bit_vector);
    assert(addr2 & 0xffff_ffff == addr2) by (bit_vector);
    assert(addr1 & 0 == 0) by (bit_vector);
    assert(addr2 & 0 == 0) by (bit_vector);
}

/// The family of an interface address.
#[derive(Clone, Copy, Debug, PartialEq, Eq)]
pub enum Kind {
    Ipv4,
    Ipv6,
    Link,
    Unknown(i32),
    Packet,
}

/// An IP address of either family, as a number.
#[derive(Clone, Copy, Debug, PartialEq, Eq)]
pub enum IpAddress {
    V4(u32),
    V6(u128),
}

/// One address of a network interface, as the system lists it.
#[derive(Clone, Copy, Debug, PartialEq, Eq)]
pub struct Address {
    pub kind: Kind,
    pub addr: Option<IpAddress>,
    pub mask: Option<IpAddress>,
}

/// The IPv4 address that `addr` holds.
pub fn force_ipv4(addr: IpAddress) -> (ip: u32)
    requires
        addr is V4,
    ensures
        addr == IpAddress::V4(ip),
{
    match addr {
        IpAddress::V4(ip) => ip,
        IpAddress::V6(_) => 0,
    }
}

/// Address and netmask of `ad`, where it holds both and both are IPv4.
pub open spec fn usable_pair(ad: Address) -> Option<(u32, u32)> {
    match (ad.addr, ad.mask) {
        (Some(IpAddress::V4(addr)), Some(IpAddress::V4(mask))) => Some((addr, mask)),
        _ => None,
    }
}

/// Address and netmask of the first IPv4 address in `addresses`. There is
/// none where no address is of that kind, or where the first that is lacks an
/// IPv4 address or netmask.
pub open spec fn ipv4_pair(addresses: Seq<Address>) -> Option<(u32, u32)>
    decreases addresses.len(),
{
    if addresses.len() == 0 {
        None
    } else if addresses[0].kind is Ipv4 {
        usable_pair(addresses[0])
    } else {
        ipv4_pair(addresses.drop_first())
    }
}

/// The first address of kind IPv4 decides what `ipv4_pair` is.
pub proof fn lemma_ipv4_pair_first(addresses: Seq<Address>, i: int)
    requires
        0 <= i < addresses.len(),
        addresses[i].kind is Ipv4,
        forall|j: int| 0 <= j < i ==> !(addresses[j].kind is Ipv4),
    ensures
        ipv4_pair(addresses) == usable_pair(addresses[i]),
    decreases i,
{
    if i > 0 {
        let rest = addresses.drop_first();
        assert forall|j: int| 0 <= j < i - 1 implies !(rest[j].kind is Ipv4) by {
            assert(rest[j] == addresses[j + 1]);
        }
        lemma_ipv4_pair_first(rest, i - 1);
    }
}

/// Without an address of kind IPv4 there is no pair.
pub proof fn lemma_ipv4_pair_none(addresses: Seq<Address>)
    requires
        forall|j: int| 0 <= j < addresses.len() ==> !(addresses[j].kind is Ipv4),
    ensures
        ipv4_pair(addresses) is None,
    decreases addresses.len(),
{
    if addresses.len() > 0 {
        let rest = addresses.drop_first();
        assert forall|j: int| 0 <= j < rest.len() implies !(rest[j].kind is Ipv4) by {
            assert(rest[j] == addresses[j + 1]);
        }
        lemma_ipv4_pair_none(rest);
    }
}

/// Address and netmask of an interface, from the list of its addresses.
pub fn ipv4_addr(addresses: &[Address]) -> (pair: Option<(u32, u32)>)
    ensures
        pair == ipv4_pair(addresses@),
{
    let mut i: usize = 0;
    while i < addresses.len()
        invariant
            i <= addresses@.len(),
            forall|j: int| 0 <= j < i ==> !(addresses@[j].kind is Ipv4),
        decreases addresses@.len() - i,
    {
        let ad = &addresses[i];
        if let Kind::Ipv4 = ad.kind {
            proof {
                lemma_ipv4_pair_first(addresses@, i as int);
            }
            return match (ad.addr, ad.mask) {
                (Some(IpAddress::V4(addr)), Some(IpAddress::V4(mask))) => Some((addr, mask)),
                _ => None,
            };
        }
        i = i + 1;
    }
    proof {
        lemma_ipv4_pair_none(addresses@);
    }
    None
}

/// An ADS message as it travels over TCP: a 6-byte prefix whose bytes 2 to 5
/// hold the length of the rest, then the AMS header with the destination
/// identifier at offset 6 and the source identifier at offset 14.
#[derive(Debug, PartialEq, Eq)]
pub struct AdsMessage(pub Vec<u8>);

/// Whether the length that `bytes` holds at offset 2, and the six bytes
/// before what it counts, make up the length of `bytes`.
pub open spec fn framed(bytes: Seq<u8>) -> bool {
    bytes.len() >= 6 && 6 + le_u32(bytes.subrange(2, 6)) == bytes.len()
}

/// A buffer holds its own length exactly where it has the six bytes of the
/// prefix and the bytes at offsets 2 to 5, read least significant first,
/// count what follows the prefix. Only such a buffer is an `AdsMessage`:
/// `new` takes no other, and `checked` gives nothing for any other.
pub proof fn lemma_framed(bytes: Seq<u8>)
    ensures
        framed(bytes) <==> bytes.len() >= 6 && 6 + bytes[2] + 0x100 * bytes[3] + 0x1_0000
            * bytes[4] + 0x100_0000 * bytes[5] == bytes.len(),
        bytes.len() < 6 ==> !framed(bytes),
        bytes.len() >= 6 && 6 + le_u32(bytes.subrange(2, 6)) != bytes.len() ==> !framed(bytes),
{
    if bytes.len() >= 6 {
        let field = bytes.subrange(2, 6);
        assert(field[0] == bytes[2] && field[1] == bytes[3] && field[2] == bytes[4] && field[3]
            == bytes[5]);
    }
}

/// `bytes` with the six bytes from offset `at` replaced by `id`.
pub open spec fn patched(bytes: Seq<u8>, at: int, id: Seq<u8>) -> Seq<u8>
    recommends
        0 <= at,
        at + 6 <= bytes.len(),
        id.len() == 6,
{
    bytes.subrange(0, at) + id + bytes.subrange(at + 6, bytes.len() as int)
}

fn patch(bytes: &mut Vec<u8>, at: usize, id: &AmsNetId)
    requires
        at + 6 <= old(bytes)@.len(),
    ensures
        final(bytes)@ == patched(old(bytes)@, at as int, id.0@),
{
    let n = bytes.len();
    let mut k: usize = 0;
    while k < 6
        invariant
            k <= 6,
            at + 6 <= n == old(bytes)@.len(),
            bytes@.len() == old(bytes)@.len(),
            forall|j: int| 0 <= j < at + k ==> bytes@[j] == patched(old(bytes)@, at as int, id.0@)[j],
            forall|j: int| at + k <= j < bytes@.len() ==> bytes@[j] == old(bytes)@[j],
        decreases 6 - k,
    {
        bytes[at + k] = id.0[k];
        k = k + 1;
    }
    assert(bytes@ =~= patched(old(bytes)@, at as int, id.0@));
}

impl AdsMessage {
    /// Whether the message holds its own length.
    pub open spec fn wf(&self) -> bool {
        framed(self.0@)
    }

    /// The bytes of the destination identifier.
    pub open spec fn dest(&self) -> Seq<u8>
        recommends
            self.0@.len() >= 12,
    {
        self.0@.subrange(6, 12)
    }

    /// The bytes of the source identifier.
    pub open spec fn source(&self) -> Seq<u8>
        recommends
            self.0@.len() >= 20,
    {
        self.0@.subrange(14, 20)
    }

    /// Wraps a buffer that holds its own length.
    pub fn new(msg: Vec<u8>) -> (m: AdsMessage)
        requires
            framed(msg@),
        ensures
            m.0 == msg,
            m.wf(),
    {
        AdsMessage(msg)
    }

    /// Wraps `msg` if it holds its own length, and gives nothing if not.
    pub fn checked(msg: Vec<u8>) -> (m: Option<AdsMessage>)
        ensures
            framed(msg@) ==> (m matches Some(a) && a.0 == msg),
            !framed(msg@) ==> m is None,
    {
        if msg.len() < 6 {
            return None;
        }
        let field = read_u32(slice_subrange(msg.as_slice(), 2, 6));
        if msg.len() as u64 == 6 + field as u64 {
            Some(AdsMessage(msg))
        } else {
            None
        }
    }

    /// The length that the message declares: six bytes more than its length
    /// field says.
    pub fn length(&self) -> (n: usize)
        requires
            self.0@.len() >= 6,
            6 + le_u32(self.0@.subrange(2, 6)) <= usize::MAX,
        ensures
            n == 6 + le_u32(self.0@.subrange(2, 6)),
    {
        6 + read_u32(slice_subrange(self.0.as_slice(), 2, 6)) as usize
    }

    pub fn dest_id(&self) -> (id: AmsNetId)
        requires
            self.0@.len() >= 12,
        ensures
            id.0@ == self.dest(),
    {
        AmsNetId::from_slice(slice_subrange(self.0.as_slice(), 6, 12))
    }

    pub fn source_id(&self) -> (id: AmsNetId)
        requires
            self.0@.len() >= 20,
        ensures
            id.0@ == self.source(),
    {
        AmsNetId::from_slice(slice_subrange(self.0.as_slice(), 14, 20))
    }

    /// Overwrites the destination identifier, and nothing else.
    pub fn patch_dest_id(&mut self, id: &AmsNetId)
        requires
            old(self).0@.len() >= 12,
        ensures
            final(self).0@ == patched(old(self).0@, 6, id.0@),
            final(self).dest() == id.0@,
            final(self).wf() == old(self).wf(),
    {
        patch(&mut self.0, 6, id);
        proof {
            lemma_patched(old(self).0@, 6, id.0@);
        }
    }

    /// Overwrites the source identifier, and nothing else.
    pub fn patch_source_id(&mut self, id: &AmsNetId)
        requires
            old(self).0@.len() >= 20,
        ensures
            final(self).0@ == patched(old(self).0@, 14, id.0@),
            final(self).source() == id.0@,
            final(self).dest() == old(self).dest(),
            final(self).wf() == old(self).wf(),
    {
        patch(&mut self.0, 14, id);
        proof {
            lemma_patched(old(self).0@, 14, id.0@);
        }
    }
}

/// Patching keeps the length and every byte outside the six that it
/// replaces, and those six read back as the identifier.
pub proof fn lemma_patched(bytes: Seq<u8>, at: int, id: Seq<u8>)
    requires
        0 <= at,
        at + 6 <= bytes.len(),
        id.len() == 6,
    ensures
        patched(bytes, at, id).len() == bytes.len(),
        patched(bytes, at, id).subrange(at, at + 6) == id,
        forall|j: int|
            0 <= j < bytes.len() && !(at <= j < at + 6) ==> patched(bytes, at, id)[j] == bytes[j],
        at >= 6 ==> framed(patched(bytes, at, id)) == framed(bytes),
        forall|lo: int, hi: int|
            0 <= lo <= hi <= bytes.len() && (hi <= at || at + 6 <= lo) ==> #[trigger] patched(
                bytes,
                at,
                id,
            ).subrange(lo, hi) == bytes.subrange(lo, hi),
{
    let p = patched(bytes, at, id);
    assert(p.subrange(at, at + 6) =~= id);
    if at >= 6 {
        assert(p.subrange(2, 6) =~= bytes.subrange(2, 6));
    }
    assert forall|lo: int, hi: int|
        0 <= lo <= hi <= bytes.len() && (hi <= at || at + 6 <= lo) implies #[trigger] p.subrange(
        lo,
        hi,
    ) == bytes.subrange(lo, hi) by {
        assert(p.subrange(lo, hi) =~= bytes.subrange(lo, hi));
    }
}

} // verus!
