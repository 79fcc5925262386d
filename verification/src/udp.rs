//! The two discovery protocols as they stand on the wire.
//!
//! Bus couplers answer a fixed request for two memory regions on their own
//! port. Embedded PCs speak the general UDP protocol: a header of 24 bytes
//! (magic number, invoke id, operation, the sender's identifier and port, the
//! number of items), then the items, each a tag, a length and that many
//! bytes. All numbers are little-endian.

use crate::le::{bytes_u16, bytes_u32, le_u16, le_u32, read_u16, read_u32, u16_le, u32_le};
use crate::netid::AmsNetId;
use crate::util::BECKHOFF_UDP_MAGIC;
use vstd::prelude::*;
use vstd::slice::{slice_subrange, slice_to_vec};

verus! {

/// The length of a bus coupler's answer.
pub const BC_REPLY_LEN: usize = 42;

/// The length of the header of a message in the UDP protocol.
pub const UDP_HEADER_LEN: usize = 24;

/// The operation that asks a device who it is.
pub const UDP_IDENTIFY: u32 = 1;

/// The bit that marks the operation of an answer.
pub const UDP_RESPONSE: u32 = 0x8000_0000;

/// The tag of the item that holds the version.
pub const UDP_VERSION: u16 = 3;

/// The tag of the item that holds the host name.
pub const UDP_HOST: u16 = 5;

/// The request that bus couplers answer: read 3 words from 0:0x21, the
/// identifier, and 10 words from 100:4, the name.
pub open spec fn bc_request() -> Seq<u8> {
    seq![1u8, 0u8, 0u8, 0u8, 0u8, 0u8, 0x21u8, 0u8, 3u8, 0u8, 100u8, 0u8, 4u8, 0u8, 10u8, 0u8]
}

/// `field` without the zero bytes at its end.
pub open spec fn trimmed(field: Seq<u8>) -> Seq<u8>
    decreases field.len(),
{
    if field.len() > 0 && field.last() == 0 {
        trimmed(field.drop_last())
    } else {
        field
    }
}

/// What a bus coupler's answer holds.
#[derive(Debug, PartialEq, Eq)]
pub struct BcReply {
    /// The first four bytes, as a number.
    pub word: u32,
    /// The device's identifier.
    pub netid: AmsNetId,
    /// The device's name, without the zero bytes that fill its field.
    pub name: Vec<u8>,
}

/// A bus coupler's answer, read by its layout: a number of 4 bytes, 6 bytes
/// that are passed over, the identifier, 6 more bytes that are passed over,
/// and 20 bytes for the name. Anything that is not 42 bytes long is no
/// such answer.
pub open spec fn bc_reply(data: Seq<u8>) -> Option<(u32, Seq<u8>, Seq<u8>)> {
    if data.len() == 42 {
        Some(
            (
                le_u32(data.subrange(0, 4)) as u32,
                data.subrange(10, 16),
                trimmed(data.subrange(22, 42)),
            ),
        )
    } else {
        None
    }
}

/// One item of a message in the UDP protocol.
#[derive(Debug, PartialEq, Eq)]
pub struct UdpItem {
    pub tag: u16,
    pub data: Vec<u8>,
}

/// Tags and contents of `items`.
pub open spec fn items_view(items: Seq<UdpItem>) -> Seq<(u16, Seq<u8>)> {
    Seq::new(items.len(), |i: int| (items[i].tag, items[i].data@))
}

/// The first `count` items that `bytes` holds, if it holds that many.
pub open spec fn udp_items(bytes: Seq<u8>, count: nat) -> Option<Seq<(u16, Seq<u8>)>>
    decreases count,
{
    if count == 0 {
        Some(Seq::empty())
    } else if bytes.len() < 4 {
        None
    } else {
        let tag = le_u16(bytes.subrange(0, 2)) as u16;
        let len = le_u16(bytes.subrange(2, 4));
        if bytes.len() < 4 + len {
            None
        } else {
            match udp_items(bytes.skip(4 + len), (count - 1) as nat) {
                None => None,
                Some(rest) => Some(seq![(tag, bytes.subrange(4, 4 + len))] + rest),
            }
        }
    }
}

/// The header of a message with operation `op` from `srcid` and `srcport`
/// that announces `items` items.
pub open spec fn udp_header(op: u32, srcid: Seq<u8>, srcport: u16, items: u32) -> Seq<u8> {
    u32_le(BECKHOFF_UDP_MAGIC) + u32_le(0) + u32_le(op) + srcid + u16_le(srcport) + u32_le(items)
}

/// The sender's identifier and the items of the answer `data` to operation
/// `exp_op`. There is none where `data` is shorter than a header, where the
/// magic number, an invoke id of 0 or the operation of the answer is not
/// what stands there, or where the items that the header announces are not
/// all there.
pub open spec fn udp_answer(data: Seq<u8>, exp_op: u32) -> Option<(Seq<u8>, Seq<(u16, Seq<u8>)>)> {
    if data.len() < 24 {
        None
    } else if le_u32(data.subrange(0, 4)) != BECKHOFF_UDP_MAGIC || le_u32(data.subrange(4, 8)) != 0
        || le_u32(data.subrange(8, 12)) != (exp_op | UDP_RESPONSE) {
        None
    } else {
        match udp_items(data.skip(24), le_u32(data.subrange(20, 24)) as nat) {
            None => None,
            Some(items) => Some((data.subrange(12, 18), items)),
        }
    }
}

/// The contents of the last item of `items` with tag `tag`.
pub open spec fn find_item(items: Seq<(u16, Seq<u8>)>, tag: u16) -> Option<Seq<u8>>
    decreases items.len(),
{
    if items.len() == 0 {
        None
    } else if items.last().0 == tag {
        Some(items.last().1)
    } else {
        find_item(items.drop_last(), tag)
    }
}

/// What an embedded PC's answer to "identify" holds.
#[derive(Debug, PartialEq, Eq)]
pub struct CxReply {
    /// The device's identifier.
    pub netid: AmsNetId,
    /// The host name, without the byte that ends it.
    pub name: Vec<u8>,
    /// The TwinCAT version: major, minor, build.
    pub version: (u8, u8, u16),
}

/// Identifier, host name and version of the answer `data` to "identify".
/// The host name is the item with tag 5 without its last byte; the version
/// is read from the first four bytes of the item with tag 3. An answer
/// without either, with an empty host item or a version of under four bytes
/// is none.
pub open spec fn identify_reply(data: Seq<u8>) -> Option<(Seq<u8>, Seq<u8>, (u8, u8, u16))> {
    match udp_answer(data, UDP_IDENTIFY) {
        None => None,
        Some((id, items)) => match (find_item(items, UDP_HOST), find_item(items, UDP_VERSION)) {
            (Some(host), Some(ver)) => if host.len() >= 1 && ver.len() >= 4 {
                Some((id, host.drop_last(), (ver[0], ver[1], le_u16(ver.subrange(2, 4)) as u16)))
            } else {
                None
            },
            _ => None,
        },
    }
}

/// A message in the UDP protocol.
#[derive(Debug, PartialEq, Eq)]
pub struct UdpMessage(pub Vec<u8>);

/// The request that bus couplers answer.
pub fn bc_scan_request() -> (msg: Vec<u8>)
    ensures
        msg@ == bc_request(),
{
    let mut msg: Vec<u8> = Vec::new();
    msg.extend_from_slice(bytes_u32(1).as_slice());
    msg.extend_from_slice(bytes_u16(0).as_slice());
    msg.extend_from_slice(bytes_u16(0x21).as_slice());
    msg.extend_from_slice(bytes_u16(3).as_slice());
    msg.extend_from_slice(bytes_u16(100).as_slice());
    msg.extend_from_slice(bytes_u16(4).as_slice());
    msg.extend_from_slice(bytes_u16(10).as_slice());
    assert(msg@ =~= bc_request());
    msg
}

fn trim_nuls(field: &[u8]) -> (name: Vec<u8>)
    ensures
        name@ == trimmed(field@),
{
    let mut k: usize = field.len();
    assert(field@.take(k as int) =~= field@);
    while k > 0 && field[k - 1] == 0
        invariant
            k <= field@.len(),
            trimmed(field@) == trimmed(field@.take(k as int)),
        decreases k,
    {
        assert(field@.take(k as int).drop_last() =~= field@.take(k - 1));
        k = k - 1;
    }
    slice_to_vec(slice_subrange(field, 0, k))
}

/// Reads a bus coupler's answer.
pub fn bc_scan_reply(data: &[u8]) -> (reply: Option<BcReply>)
    ensures
        match bc_reply(data@) {
            None => reply is None,
            Some((word, netid, name)) => reply matches Some(r) && r.word == word && r.netid.0@
                == netid && r.name@ == name,
        },
{
    if data.len() != BC_REPLY_LEN {
        return None;
    }
    let word = read_u32(slice_subrange(data, 0, 4));
    let netid = AmsNetId::from_slice(slice_subrange(data, 10, 16));
    let name = trim_nuls(slice_subrange(data, 22, 42));
    Some(BcReply { word, netid, name })
}

impl UdpMessage {
    /// A message that holds the header and no item yet.
    pub fn new(op: u32, srcid: &AmsNetId, srcport: u16, items: u32) -> (msg: UdpMessage)
        ensures
            msg.0@ == udp_header(op, srcid.0@, srcport, items),
    {
        let mut buf: Vec<u8> = Vec::new();
        buf.extend_from_slice(bytes_u32(BECKHOFF_UDP_MAGIC).as_slice());
        buf.extend_from_slice(bytes_u32(0).as_slice());
        buf.extend_from_slice(bytes_u32(op).as_slice());
        buf.extend_from_slice(srcid.0.as_slice());
        buf.extend_from_slice(bytes_u16(srcport).as_slice());
        buf.extend_from_slice(bytes_u32(items).as_slice());
        UdpMessage(buf)
    }

    /// Reads the answer to operation `exp_op`: the sender's identifier and
    /// the items.
    pub fn parse(data: &[u8], exp_op: u32) -> (answer: Option<(AmsNetId, Vec<UdpItem>)>)
        ensures
            match udp_answer(data@, exp_op) {
                None => answer is None,
                Some((id, items)) => answer matches Some(a) && a.0.0@ == id && items_view(a.1@)
                    == items,
            },
    {
        if data.len() < UDP_HEADER_LEN {
            return None;
        }
        let magic = read_u32(slice_subrange(data, 0, 4));
        let invoke_id = read_u32(slice_subrange(data, 4, 8));
        let rep_op = read_u32(slice_subrange(data, 8, 12));
        if magic != BECKHOFF_UDP_MAGIC || invoke_id != 0 || rep_op != (exp_op | UDP_RESPONSE) {
            return None;
        }
        let netid = AmsNetId::from_slice(slice_subrange(data, 12, 18));
        let count = read_u32(slice_subrange(data, 20, 24));
        let mut items: Vec<UdpItem> = Vec::new();
        let mut pos: usize = UDP_HEADER_LEN;
        let mut left: u32 = count;
        let ghost body = data@.skip(24);
        assert(data@.skip(pos as int) =~= body);
        assert(items_view(items@) =~= Seq::empty());
        proof {
            match udp_items(body, count as nat) {
                None => {},
                Some(all) => {
                    assert(Seq::<(u16, Seq<u8>)>::empty() + all =~= all);
                },
            }
        }
        while left > 0
            invariant
                24 <= pos <= data@.len(),
                body == data@.skip(24),
                left <= count,
                udp_answer(data@, exp_op) == match udp_items(body, count as nat) {
                    None => None::<(Seq<u8>, Seq<(u16, Seq<u8>)>)>,
                    Some(all) => Some((data@.subrange(12, 18), all)),
                },
                udp_items(body, count as nat) == match udp_items(
                    data@.skip(pos as int),
                    left as nat,
                ) {
                    None => None::<Seq<(u16, Seq<u8>)>>,
                    Some(rest) => Some(items_view(items@) + rest),
                },
            decreases left,
        {
            let ghost tail = data@.skip(pos as int);
            assert(tail.len() == data@.len() - pos);
            if data.len() - pos < 4 {
                assert(udp_items(tail, left as nat) is None);
                return None;
            }
            let tag = read_u16(slice_subrange(data, pos, pos + 2));
            let len = read_u16(slice_subrange(data, pos + 2, pos + 4)) as usize;
            assert(data@.subrange(pos as int, pos + 2) =~= tail.subrange(0, 2));
            assert(data@.subrange(pos + 2, pos + 4) =~= tail.subrange(2, 4));
            if data.len() - pos - 4 < len {
                assert(udp_items(tail, left as nat) is None);
                return None;
            }
            let content = slice_to_vec(slice_subrange(data, pos + 4, pos + 4 + len));
            assert(content@ =~= tail.subrange(4, 4 + len));
            let ghost before = items_view(items@);
            items.push(UdpItem { tag, data: content });
            assert(items_view(items@) =~= before + seq![(tag, content@)]);
            pos = pos + 4 + len;
            left = left - 1;
            assert(data@.skip(pos as int) =~= tail.skip(4 + len));
            proof {
                match udp_items(data@.skip(pos as int), left as nat) {
                    None => {},
                    Some(rest) => {
                        assert(before + (seq![(tag, content@)] + rest) =~= items_view(items@)
                            + rest);
                    },
                }
            }
        }
        assert(items_view(items@) + Seq::<(u16, Seq<u8>)>::empty() =~= items_view(items@));
        Some((netid, items))
    }
}

fn last_item(items: &Vec<UdpItem>, tag: u16) -> (found: Option<usize>)
    ensures
        match find_item(items_view(items@), tag) {
            None => found is None,
            Some(data) => found matches Some(i) && i < items@.len() && items@[i as int].data@
                == data,
        },
{
    let mut k: usize = items.len();
    assert(items_view(items@).take(k as int) =~= items_view(items@));
    while k > 0
        invariant
            k <= items@.len(),
            find_item(items_view(items@), tag) == find_item(items_view(items@).take(k as int), tag),
        decreases k,
    {
        let ghost seen = items_view(items@).take(k as int);
        assert(seen.drop_last() =~= items_view(items@).take(k - 1));
        assert(seen.last() == (items@[k - 1].tag, items@[k - 1].data@));
        if items[k - 1].tag == tag {
            return Some(k - 1);
        }
        k = k - 1;
    }
    None
}

/// Reads an embedded PC's answer to "identify".
pub fn identify_scan_reply(data: &[u8]) -> (reply: Option<CxReply>)
    ensures
        match identify_reply(data@) {
            None => reply is None,
            Some((netid, name, version)) => reply matches Some(r) && r.netid.0@ == netid
                && r.name@ == name && r.version == version,
        },
{
    match UdpMessage::parse(data, UDP_IDENTIFY) {
        None => None,
        Some((netid, items)) => {
            match (last_item(&items, UDP_HOST), last_item(&items, UDP_VERSION)) {
                (Some(h), Some(v)) => {
                    let host = items[h].data.as_slice();
                    let ver = items[v].data.as_slice();
                    if host.len() >= 1 && ver.len() >= 4 {
                        let name = slice_to_vec(slice_subrange(host, 0, host.len() - 1));
                        let build = read_u16(slice_subrange(ver, 2, 4));
                        Some(CxReply { netid, name, version: (ver[0], ver[1], build) })
                    } else {
                        None
                    }
                },
                _ => None,
            }
        },
    }
}

} // verus!
