use ads_discovery::netid::AmsNetId;
use ads_discovery::util::{
    force_ipv4, hexdump, in_same_net, ipv4_addr, printable, Address, AdsMessage, IpAddress, Kind,
    BECKHOFF_BC_UDP_PORT, BECKHOFF_TCP_PORT, BECKHOFF_UDP_MAGIC, BECKHOFF_UDP_PORT, FWDER_NETID,
};

fn envelope(payload: usize) -> Vec<u8> {
    let mut bytes = vec![0u8; 6 + payload];
    let len = payload as u32;
    bytes[2] = (len & 0xff) as u8;
    bytes[3] = ((len >> 8) & 0xff) as u8;
    bytes[4] = ((len >> 16) & 0xff) as u8;
    bytes[5] = ((len >> 24) & 0xff) as u8;
    for (i, b) in bytes.iter_mut().enumerate().skip(6) {
        *b = (i % 251) as u8;
    }
    bytes
}

#[test]
fn well_known_numbers() {
    assert_eq!(BECKHOFF_BC_UDP_PORT, 0xBECF);
    assert_eq!(BECKHOFF_TCP_PORT, 0xBF02);
    assert_eq!(BECKHOFF_UDP_PORT, 0xBF03);
    assert_eq!(BECKHOFF_UDP_MAGIC, 0x71146603);
    assert_eq!(FWDER_NETID.len(), 6);
}

#[test]
fn same_net_compares_the_masked_addresses() {
    assert!(in_same_net(0xC0A8_0001, 0xC0A8_00FE, 0xFFFF_FF00));
    assert!(!in_same_net(0xC0A8_0001, 0xC0A8_01FE, 0xFFFF_FF00));
    assert!(in_same_net(0xC0A8_0001, 0xC0A8_01FE, 0xFFFF_0000));
    assert!(!in_same_net(0x0A00_0001, 0x0B00_0001, 0xFF00_0000));
}

#[test]
fn same_net_under_the_full_mask_means_equal() {
    assert!(in_same_net(0x0102_0304, 0x0102_0304, 0xFFFF_FFFF));
    assert!(!in_same_net(0x0102_0304, 0x0102_0305, 0xFFFF_FFFF));
    assert!(!in_same_net(0x8102_0304, 0x0102_0304, 0xFFFF_FFFF));
}

#[test]
fn same_net_under_the_empty_mask_is_always_true() {
    assert!(in_same_net(0, 0xFFFF_FFFF, 0));
    assert!(in_same_net(0x0102_0304, 0xF0E0_D0C0, 0));
}

#[test]
fn printable_keeps_32_to_126() {
    assert_eq!(printable(&31), '.');
    assert_eq!(printable(&32), ' ');
    assert_eq!(printable(&b'A'), 'A');
    assert_eq!(printable(&126), '~');
    assert_eq!(printable(&127), '.');
    assert_eq!(printable(&128), '.');
    assert_eq!(printable(&0), '.');
    assert_eq!(printable(&255), '.');
}

#[test]
fn hexdump_of_twenty_bytes_has_two_lines() {
    let data: Vec<u8> = (0x30u8..0x44).collect();
    let lines = hexdump(&data);
    assert_eq!(lines.len(), 2);
    assert_eq!(
        lines[0],
        "0x0000: 30 31 32 33 34 35 36 37 38 39 3a 3b 3c 3d 3e 3f | 0123456789:;<=>?"
    );
    assert_eq!(
        lines[1],
        "0x0010: 40 41 42 43                                     | @ABC"
    );
    assert_eq!(lines[0].find('|'), lines[1].find('|'));
}

#[test]
fn hexdump_of_nothing_has_no_line() {
    assert_eq!(hexdump(&[]).len(), 0);
}

#[test]
fn hexdump_line_counts() {
    assert_eq!(hexdump(&[0u8; 1]).len(), 1);
    assert_eq!(hexdump(&[0u8; 15]).len(), 1);
    assert_eq!(hexdump(&[0u8; 16]).len(), 1);
    assert_eq!(hexdump(&[0u8; 17]).len(), 2);
    assert_eq!(hexdump(&[0u8; 32]).len(), 2);
    assert_eq!(hexdump(&[0u8; 33]).len(), 3);
}

#[test]
fn hexdump_shows_dots_for_what_does_not_print() {
    let lines = hexdump(&[0x00, 0x1f, 0x20, 0x7e, 0x7f, 0x80, 0xff]);
    assert_eq!(lines.len(), 1);
    let gap = "   ".repeat(9);
    assert_eq!(lines[0], format!("0x0000: 00 1f 20 7e 7f 80 ff{} | .. ~...", gap));
}

#[test]
fn hexdump_offsets_grow_past_four_digits() {
    let data = vec![0xabu8; 0x10000 + 1];
    let lines = hexdump(&data);
    assert_eq!(lines.len(), 0x1001);
    assert!(lines[1].starts_with("0x0010: ab ab"));
    assert!(lines[0xfff].starts_with("0xfff0: ab"));
    assert_eq!(lines[0x1000], format!("0x10000: ab{} | .", "   ".repeat(15)));
}

#[test]
fn force_ipv4_gives_the_address() {
    assert_eq!(force_ipv4(IpAddress::V4(0xC0A8_0001)), 0xC0A8_0001);
    assert_eq!(force_ipv4(IpAddress::V4(0)), 0);
}

fn v4(kind: Kind, addr: u32, mask: u32) -> Address {
    Address { kind, addr: Some(IpAddress::V4(addr)), mask: Some(IpAddress::V4(mask)) }
}

#[test]
fn ipv4_addr_takes_the_first_ipv4_address() {
    let list = [
        Address { kind: Kind::Link, addr: None, mask: None },
        Address { kind: Kind::Ipv6, addr: Some(IpAddress::V6(1)), mask: Some(IpAddress::V6(2)) },
        v4(Kind::Ipv4, 0x0A00_0005, 0xFF00_0000),
        v4(Kind::Ipv4, 0xC0A8_0001, 0xFFFF_FF00),
    ];
    assert_eq!(ipv4_addr(&list), Some((0x0A00_0005, 0xFF00_0000)));
}

#[test]
fn ipv4_addr_without_an_ipv4_address_is_none() {
    assert_eq!(ipv4_addr(&[]), None);
    let list = [
        Address { kind: Kind::Packet, addr: None, mask: None },
        Address { kind: Kind::Unknown(99), addr: None, mask: None },
        v4(Kind::Ipv6, 1, 2),
    ];
    assert_eq!(ipv4_addr(&list), None);
}

#[test]
fn ipv4_addr_passes_over_an_interface_with_half_an_address() {
    let no_mask = [
        Address { kind: Kind::Ipv4, addr: Some(IpAddress::V4(1)), mask: None },
        v4(Kind::Ipv4, 0xC0A8_0001, 0xFFFF_FF00),
    ];
    assert_eq!(ipv4_addr(&no_mask), None);
    let no_addr = [Address { kind: Kind::Ipv4, addr: None, mask: Some(IpAddress::V4(1)) }];
    assert_eq!(ipv4_addr(&no_addr), None);
    let wrong_family = [Address {
        kind: Kind::Ipv4,
        addr: Some(IpAddress::V6(1)),
        mask: Some(IpAddress::V4(1)),
    }];
    assert_eq!(ipv4_addr(&wrong_family), None);
}

#[test]
fn envelope_with_its_own_length_is_taken() {
    let bytes = envelope(32);
    let msg = AdsMessage::checked(bytes.clone()).unwrap();
    assert_eq!(msg.0, bytes);
    assert_eq!(msg.length(), 38);
    let msg = AdsMessage::new(bytes.clone());
    assert_eq!(msg.0, bytes);
}

#[test]
fn envelope_of_the_prefix_alone_is_taken() {
    let msg = AdsMessage::checked(vec![7, 7, 0, 0, 0, 0]).unwrap();
    assert_eq!(msg.length(), 6);
}

#[test]
fn envelope_with_another_length_is_refused() {
    let mut long = envelope(32);
    long.push(0);
    assert_eq!(AdsMessage::checked(long), None);
    let mut short = envelope(32);
    short.pop();
    assert_eq!(AdsMessage::checked(short), None);
    let mut wrong_field = envelope(32);
    wrong_field[3] = 1;
    assert_eq!(AdsMessage::checked(wrong_field), None);
    let mut high_byte = envelope(32);
    high_byte[5] = 0x80;
    assert_eq!(AdsMessage::checked(high_byte), None);
}

#[test]
fn envelope_shorter_than_its_prefix_is_refused() {
    assert_eq!(AdsMessage::checked(vec![]), None);
    assert_eq!(AdsMessage::checked(vec![0, 0, 0, 0, 0]), None);
}

#[test]
fn envelope_length_is_read_little_endian() {
    let bytes = envelope(0x0102);
    assert_eq!(bytes[2], 0x02);
    assert_eq!(bytes[3], 0x01);
    let msg = AdsMessage::checked(bytes).unwrap();
    assert_eq!(msg.length(), 6 + 0x0102);
    let not_framed = AdsMessage(vec![0, 0, 0x78, 0x56, 0x34, 0x12]);
    assert_eq!(not_framed.length(), 6 + 0x1234_5678);
}

#[test]
fn envelope_identifiers_sit_at_their_offsets() {
    let msg = AdsMessage::new(envelope(32));
    assert_eq!(msg.dest_id().0, [6, 7, 8, 9, 10, 11]);
    assert_eq!(msg.source_id().0, [14, 15, 16, 17, 18, 19]);
}

#[test]
fn patched_identifiers_read_back() {
    let bytes = envelope(32);
    let mut msg = AdsMessage::new(bytes.clone());
    let dest = AmsNetId([1, 2, 3, 4, 5, 6]);
    let source = AmsNetId([201, 202, 203, 204, 205, 206]);
    msg.patch_dest_id(&dest);
    assert_eq!(msg.dest_id(), dest);
    assert_eq!(msg.source_id().0, [14, 15, 16, 17, 18, 19]);
    msg.patch_source_id(&source);
    assert_eq!(msg.source_id(), source);
    assert_eq!(msg.dest_id(), dest);
    assert_eq!(msg.0.len(), bytes.len());
    assert_eq!(msg.length(), bytes.len());
    assert_eq!(&msg.0[..6], &bytes[..6]);
    assert_eq!(&msg.0[12..14], &bytes[12..14]);
    assert_eq!(&msg.0[20..], &bytes[20..]);
    assert_eq!(&msg.0[6..12], &[1, 2, 3, 4, 5, 6]);
    assert_eq!(&msg.0[14..20], &[201, 202, 203, 204, 205, 206]);
}

#[test]
fn patching_the_destination_of_a_short_envelope() {
    let mut msg = AdsMessage::new(envelope(6));
    msg.patch_dest_id(&AmsNetId([9, 9, 9, 9, 9, 9]));
    assert_eq!(msg.0, vec![0, 0, 6, 0, 0, 0, 9, 9, 9, 9, 9, 9]);
}
