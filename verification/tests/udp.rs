use ads_discovery::netid::AmsNetId;
use ads_discovery::udp::{
    bc_scan_reply, bc_scan_request, identify_scan_reply, UdpItem, UdpMessage, BC_REPLY_LEN,
    UDP_HEADER_LEN, UDP_HOST, UDP_IDENTIFY, UDP_RESPONSE, UDP_VERSION,
};

fn legacy_reply(word: u32, netid: [u8; 6], name: &[u8]) -> Vec<u8> {
    let mut data = Vec::new();
    data.extend_from_slice(&word.to_le_bytes());
    data.extend_from_slice(&[0xEE; 6]);
    data.extend_from_slice(&netid);
    data.extend_from_slice(&[0xDD; 6]);
    let mut field = [0u8; 20];
    field[..name.len()].copy_from_slice(name);
    data.extend_from_slice(&field);
    data
}

fn answer(op: u32, netid: [u8; 6], count: u32, items: &[(u16, &[u8])]) -> Vec<u8> {
    let mut data = Vec::new();
    data.extend_from_slice(&0x71146603u32.to_le_bytes());
    data.extend_from_slice(&0u32.to_le_bytes());
    data.extend_from_slice(&op.to_le_bytes());
    data.extend_from_slice(&netid);
    data.extend_from_slice(&10000u16.to_le_bytes());
    data.extend_from_slice(&count.to_le_bytes());
    for (tag, content) in items {
        data.extend_from_slice(&tag.to_le_bytes());
        data.extend_from_slice(&(content.len() as u16).to_le_bytes());
        data.extend_from_slice(content);
    }
    data
}

#[test]
fn legacy_request_is_bit_exact() {
    assert_eq!(
        bc_scan_request(),
        vec![1, 0, 0, 0, 0, 0, 0x21, 0, 3, 0, 100, 0, 4, 0, 10, 0]
    );
}

#[test]
fn legacy_reply_is_read_by_its_layout() {
    let data = legacy_reply(0x0403_0201, [5, 18, 220, 31, 1, 1], b"TESTDEV");
    assert_eq!(data.len(), BC_REPLY_LEN);
    let reply = bc_scan_reply(&data).unwrap();
    assert_eq!(reply.word, 0x0403_0201);
    assert_eq!(reply.netid, AmsNetId([5, 18, 220, 31, 1, 1]));
    assert_eq!(reply.name, b"TESTDEV");
}

#[test]
fn legacy_name_loses_only_the_zeros_at_its_end() {
    let full = legacy_reply(0, [1; 6], b"ABCDEFGHIJKLMNOPQRST");
    assert_eq!(bc_scan_reply(&full).unwrap().name, b"ABCDEFGHIJKLMNOPQRST");
    let inner = legacy_reply(0, [1; 6], b"AB\0CD");
    assert_eq!(bc_scan_reply(&inner).unwrap().name, b"AB\0CD");
    let none = legacy_reply(0, [1; 6], b"");
    assert_eq!(bc_scan_reply(&none).unwrap().name, b"");
}

#[test]
fn legacy_reply_of_another_length_is_none() {
    let mut data = legacy_reply(1, [1; 6], b"X");
    data.push(0);
    assert_eq!(bc_scan_reply(&data), None);
    data.pop();
    data.pop();
    assert_eq!(bc_scan_reply(&data), None);
    assert_eq!(bc_scan_reply(&[]), None);
}

#[test]
fn identify_request_is_bit_exact() {
    let msg = UdpMessage::new(UDP_IDENTIFY, &AmsNetId([10, 1, 0, 0, 1, 1]), 10000, 0);
    assert_eq!(
        msg.0,
        vec![
            0x03, 0x66, 0x14, 0x71, 0, 0, 0, 0, 1, 0, 0, 0, 10, 1, 0, 0, 1, 1, 0x10, 0x27, 0, 0,
            0, 0
        ]
    );
    assert_eq!(msg.0.len(), UDP_HEADER_LEN);
}

#[test]
fn header_numbers_are_little_endian() {
    let msg = UdpMessage::new(0x8000_0006, &AmsNetId([1, 2, 3, 4, 5, 6]), 0xBF02, 0x0102_0304);
    assert_eq!(&msg.0[8..12], &[6, 0, 0, 0x80]);
    assert_eq!(&msg.0[12..18], &[1, 2, 3, 4, 5, 6]);
    assert_eq!(&msg.0[18..20], &[0x02, 0xBF]);
    assert_eq!(&msg.0[20..24], &[4, 3, 2, 1]);
}

#[test]
fn answer_is_parsed_into_its_items() {
    let data = answer(
        UDP_IDENTIFY | UDP_RESPONSE,
        [7, 7, 7, 7, 1, 1],
        2,
        &[(UDP_HOST, b"PLC\0"), (0x0102, &[9, 8, 7])],
    );
    let (netid, items) = UdpMessage::parse(&data, UDP_IDENTIFY).unwrap();
    assert_eq!(netid, AmsNetId([7, 7, 7, 7, 1, 1]));
    assert_eq!(
        items,
        vec![
            UdpItem { tag: UDP_HOST, data: b"PLC\0".to_vec() },
            UdpItem { tag: 0x0102, data: vec![9, 8, 7] },
        ]
    );
}

#[test]
fn a_request_of_ours_is_no_answer() {
    let request = UdpMessage::new(UDP_IDENTIFY, &AmsNetId([10, 1, 0, 0, 1, 1]), 10000, 0);
    assert_eq!(UdpMessage::parse(&request.0, UDP_IDENTIFY), None);
    let echoed = UdpMessage::new(
        UDP_IDENTIFY | UDP_RESPONSE,
        &AmsNetId([10, 1, 0, 0, 1, 1]),
        10000,
        0,
    );
    assert_eq!(
        UdpMessage::parse(&echoed.0, UDP_IDENTIFY),
        Some((AmsNetId([10, 1, 0, 0, 1, 1]), vec![]))
    );
}

#[test]
fn answer_with_a_wrong_header_is_none() {
    let good = answer(UDP_IDENTIFY | UDP_RESPONSE, [1; 6], 0, &[]);
    assert!(UdpMessage::parse(&good, UDP_IDENTIFY).is_some());
    let mut magic = good.clone();
    magic[0] ^= 1;
    assert_eq!(UdpMessage::parse(&magic, UDP_IDENTIFY), None);
    let mut invoke = good.clone();
    invoke[5] = 1;
    assert_eq!(UdpMessage::parse(&invoke, UDP_IDENTIFY), None);
    assert_eq!(UdpMessage::parse(&good, 6), None);
    assert_eq!(UdpMessage::parse(&good[..23], UDP_IDENTIFY), None);
    assert_eq!(UdpMessage::parse(&[], UDP_IDENTIFY), None);
}

#[test]
fn answer_that_lacks_an_announced_item_is_none() {
    let two = answer(UDP_IDENTIFY | UDP_RESPONSE, [1; 6], 2, &[(UDP_HOST, b"A\0")]);
    assert_eq!(UdpMessage::parse(&two, UDP_IDENTIFY), None);
    let mut cut = answer(UDP_IDENTIFY | UDP_RESPONSE, [1; 6], 1, &[(UDP_HOST, b"ABC\0")]);
    cut.pop();
    assert_eq!(UdpMessage::parse(&cut, UDP_IDENTIFY), None);
    let half_head = answer(UDP_IDENTIFY | UDP_RESPONSE, [1; 6], 1, &[]);
    let mut half_head = half_head;
    half_head.extend_from_slice(&[5, 0, 1]);
    assert_eq!(UdpMessage::parse(&half_head, UDP_IDENTIFY), None);
}

#[test]
fn answer_is_read_up_to_the_announced_items() {
    let data = answer(
        UDP_IDENTIFY | UDP_RESPONSE,
        [1; 6],
        1,
        &[(UDP_HOST, b"A\0"), (UDP_VERSION, &[1, 2, 3, 4])],
    );
    let (_, items) = UdpMessage::parse(&data, UDP_IDENTIFY).unwrap();
    assert_eq!(items, vec![UdpItem { tag: UDP_HOST, data: b"A\0".to_vec() }]);
}

#[test]
fn identify_answer_gives_name_and_version() {
    let data = answer(
        UDP_IDENTIFY | UDP_RESPONSE,
        [5, 18, 220, 31, 1, 1],
        3,
        &[(UDP_HOST, b"CX-123456\0"), (4, &[0; 8]), (UDP_VERSION, &[3, 1, 0xC4, 0x0F])],
    );
    let reply = identify_scan_reply(&data).unwrap();
    assert_eq!(reply.netid, AmsNetId([5, 18, 220, 31, 1, 1]));
    assert_eq!(reply.name, b"CX-123456");
    assert_eq!(reply.version, (3, 1, 4036));
}

#[test]
fn identify_answer_takes_the_last_item_of_a_tag() {
    let data = answer(
        UDP_IDENTIFY | UDP_RESPONSE,
        [1; 6],
        4,
        &[
            (UDP_HOST, b"OLD\0"),
            (UDP_VERSION, &[1, 1, 1, 1]),
            (UDP_HOST, b"NEW\0"),
            (UDP_VERSION, &[2, 11, 0x39, 0x05, 77]),
        ],
    );
    let reply = identify_scan_reply(&data).unwrap();
    assert_eq!(reply.name, b"NEW");
    assert_eq!(reply.version, (2, 11, 1337));
}

#[test]
fn identify_answer_without_name_or_version_is_none() {
    let op = UDP_IDENTIFY | UDP_RESPONSE;
    let no_version = answer(op, [1; 6], 1, &[(UDP_HOST, b"A\0")]);
    assert_eq!(identify_scan_reply(&no_version), None);
    let no_host = answer(op, [1; 6], 1, &[(UDP_VERSION, &[1, 2, 3, 4])]);
    assert_eq!(identify_scan_reply(&no_host), None);
    let empty_host = answer(op, [1; 6], 2, &[(UDP_HOST, b""), (UDP_VERSION, &[1, 2, 3, 4])]);
    assert_eq!(identify_scan_reply(&empty_host), None);
    let short_version = answer(op, [1; 6], 2, &[(UDP_HOST, b"A\0"), (UDP_VERSION, &[1, 2, 3])]);
    assert_eq!(identify_scan_reply(&short_version), None);
    let other_op = answer(6 | UDP_RESPONSE, [1; 6], 2, &[(UDP_HOST, b"A\0"), (UDP_VERSION, &[1, 2, 3, 4])]);
    assert_eq!(identify_scan_reply(&other_op), None);
}

#[test]
fn identify_answer_with_a_one_byte_name_field() {
    let op = UDP_IDENTIFY | UDP_RESPONSE;
    let data = answer(op, [1; 6], 2, &[(UDP_HOST, b"\0"), (UDP_VERSION, &[1, 2, 3, 4])]);
    let reply = identify_scan_reply(&data).unwrap();
    assert_eq!(reply.name, b"");
    assert_eq!(reply.version, (1, 2, 0x0403));
}
