use iway::net::{IpAddress, SocketAddress};
use iway::protocol::tuic::address::Address;
use iway::protocol::tuic::address_type::{AddressType, AddressTypeError};
use iway::protocol::tuic::command::authenticate::Authenticate;
use iway::protocol::tuic::command::command_type::{CommandType, CommandTypeError};
use iway::protocol::tuic::command::connect::Connect;
use iway::protocol::tuic::command::dissociate::Dissociate;
use iway::protocol::tuic::command::heartbeat::Heartbeat;
use iway::protocol::tuic::command::packet::Packet;
use iway::protocol::tuic::command::Command;
use iway::protocol::tuic::header::Header;
use iway::protocol::tuic::version::{Version, VersionError};
use iway::wire::{get_be, get_u16, get_u32, get_u8, put_be, put_u16, CodecError};

fn v4(a: u8, b: u8, c: u8, d: u8, port: u16) -> SocketAddress {
    SocketAddress { ip: IpAddress::V4(u32::from_be_bytes([a, b, c, d])), port }
}

fn written(command: &Command) -> Vec<u8> {
    assert!(command.is_valid());
    let mut out: Vec<u8> = Vec::new();
    command.write_to_buf(&mut out);
    out
}

#[test]
fn header_bytes_are_version_then_command() {
    let header = Header::new(CommandType::Packet);
    let mut out: Vec<u8> = Vec::new();
    header.write_to(&mut out);
    assert_eq!(out, vec![0x05, 0x02]);
    let (back, next) = Header::read_from(&out, 0).unwrap();
    assert_eq!(back, header);
    assert_eq!(next, 2);
    assert_eq!(*back.command_type(), CommandType::Packet);
}

#[test]
fn header_rejects_what_it_does_not_know() {
    assert_eq!(Header::read_from(&[0x04, 0x00], 0), Err(CodecError::MalformedFrame));
    assert_eq!(Header::read_from(&[0x05, 0x05], 0), Err(CodecError::MalformedFrame));
    assert_eq!(Header::read_from(&[0x05], 0), Err(CodecError::Truncated));
    assert_eq!(Header::read_from(&[], 0), Err(CodecError::Truncated));
    assert_eq!(Header::read_from(&[0x05, 0x00], 7), Err(CodecError::Truncated));
}

#[test]
fn version_has_one_byte() {
    assert_eq!(Version::V5.to_byte(), 0x05);
    assert_eq!(Version::try_from(0x05), Ok(Version::V5));
    assert_eq!(Version::try_from(0x04), Err(VersionError::InvalidVersion(0x04)));
    assert_eq!(Version::read_from(&[0x05, 0x01], 0), Ok((Version::V5, 1)));
}

#[test]
fn command_types_have_their_bytes_and_names() {
    let all = [
        (CommandType::Authenticate, 0x00u8, "Authenticate"),
        (CommandType::Connect, 0x01, "Connect"),
        (CommandType::Packet, 0x02, "Packet"),
        (CommandType::Dissociate, 0x03, "Dissociate"),
        (CommandType::Heartbeat, 0x04, "Heartbeat"),
    ];
    for (t, byte, name) in all {
        assert_eq!(t.to_byte(), byte);
        assert_eq!(CommandType::try_from(byte), Ok(t));
        assert_eq!(t.as_str(), name);
    }
    assert_eq!(CommandType::try_from(0x05), Err(CommandTypeError::UnknownCommandType(0x05)));
    assert_eq!(CommandType::read_from(&[0x03], 0), Ok((CommandType::Dissociate, 1)));
}

#[test]
fn address_types_have_their_bytes() {
    assert_eq!(AddressType::Domain.to_byte(), 0x00);
    assert_eq!(AddressType::IpV4.to_byte(), 0x01);
    assert_eq!(AddressType::IpV6.to_byte(), 0x02);
    assert_eq!(AddressType::Absent.to_byte(), 0xFF);
    assert_eq!(AddressType::try_from(0xFF), Ok(AddressType::Absent));
    assert_eq!(AddressType::try_from(0x03), Err(AddressTypeError::InvalidAddressType(0x03)));
    assert_eq!(AddressType::read_from(&[0x03], 0), Err(CodecError::MalformedFrame));
    assert_eq!(
        AddressType::from_address(&Address::SocketAddress(v4(1, 2, 3, 4, 5))),
        AddressType::IpV4
    );
    assert_eq!(
        AddressType::from_address(&Address::DomainAddress("a.test".to_string(), 1)),
        AddressType::Domain
    );
    assert_eq!(AddressType::from_address(&Address::Absent), AddressType::Absent);
}

#[test]
fn big_endian_helpers_put_the_high_byte_first() {
    let mut out: Vec<u8> = Vec::new();
    put_u16(&mut out, 0x1234);
    put_be(&mut out, 0x0a0b0c0d, 4);
    assert_eq!(out, vec![0x12, 0x34, 0x0a, 0x0b, 0x0c, 0x0d]);
    assert_eq!(get_u16(&out, 0), Ok(0x1234));
    assert_eq!(get_u32(&out, 2), Ok(0x0a0b0c0d));
    assert_eq!(get_be(&out, 0, 6), Ok(0x12340a0b0c0d));
    assert_eq!(get_u8(&out, 5), Ok(0x0d));
    assert_eq!(get_u8(&out, 6), Err(CodecError::Truncated));
    assert_eq!(get_u32(&out, 3), Err(CodecError::Truncated));
}

#[test]
fn ipv4_address_takes_seven_bytes() {
    let address = Address::SocketAddress(v4(127, 0, 0, 1, 80));
    let mut out: Vec<u8> = Vec::new();
    address.write_to_buf(&mut out);
    assert_eq!(out, vec![0x01, 127, 0, 0, 1, 0x00, 0x50]);
    assert_eq!(Address::read_from(&out, 0), Ok((address, 7)));
    assert_eq!(Address::read_from(&out[..6], 0), Err(CodecError::Truncated));
}

#[test]
fn ipv6_address_takes_nineteen_bytes() {
    let ip: u128 = 0x2001_0db8_0000_0000_0000_0000_0000_0001;
    let address = Address::SocketAddress(SocketAddress { ip: IpAddress::V6(ip), port: 443 });
    let mut out: Vec<u8> = Vec::new();
    address.write_to_buf(&mut out);
    let mut want: Vec<u8> = vec![0x02];
    want.extend_from_slice(&ip.to_be_bytes());
    want.extend_from_slice(&[0x01, 0xbb]);
    assert_eq!(out, want);
    assert_eq!(Address::read_from(&out, 0), Ok((address, 19)));
    assert_eq!(Address::read_from(&out[..18], 0), Err(CodecError::Truncated));
}

#[test]
fn domain_address_carries_its_length() {
    let address = Address::DomainAddress("example.test".to_string(), 80);
    assert!(address.is_valid());
    assert!(address.is_domain());
    let mut out: Vec<u8> = Vec::new();
    address.write_to_buf(&mut out);
    let mut want: Vec<u8> = vec![0x00, 12];
    want.extend_from_slice(b"example.test");
    want.extend_from_slice(&[0x00, 0x50]);
    assert_eq!(out, want);
    assert_eq!(Address::read_from(&out, 0), Ok((address, 16)));
}

#[test]
fn absent_address_is_one_byte() {
    let mut out: Vec<u8> = Vec::new();
    Address::Absent.write_to_buf(&mut out);
    assert_eq!(out, vec![0xFF]);
    assert_eq!(Address::read_from(&[0xFF, 0x01], 0), Ok((Address::Absent, 1)));
}

#[test]
fn domain_name_of_255_bytes_is_permitted() {
    let name: String = "a".repeat(255);
    let address = Address::DomainAddress(name.clone(), 8080);
    assert!(address.is_valid());
    let mut out: Vec<u8> = Vec::new();
    address.write_to_buf(&mut out);
    assert_eq!(out.len(), 2 + 255 + 2);
    assert_eq!(out[1], 255);
    assert_eq!(Address::read_from(&out, 0), Ok((Address::DomainAddress(name, 8080), 259)));
    assert!(!Address::DomainAddress("a".repeat(256), 1).is_valid());
}

#[test]
fn domain_name_of_length_0_is_malformed() {
    assert_eq!(Address::read_from(&[0x00, 0, 0x00, 0x50], 0), Err(CodecError::MalformedFrame));
    assert!(!Address::DomainAddress(String::new(), 80).is_valid());
}

#[test]
fn domain_name_must_be_utf8() {
    assert_eq!(
        Address::read_from(&[0x00, 2, 0xff, 0xfe, 0x00, 0x50], 0),
        Err(CodecError::MalformedFrame)
    );
    let mut bytes: Vec<u8> = vec![0x00, 2];
    bytes.extend_from_slice("é".as_bytes());
    bytes.extend_from_slice(&[0x00, 0x50]);
    assert_eq!(
        Address::read_from(&bytes, 0),
        Ok((Address::DomainAddress("é".to_string(), 80), 6))
    );
}

#[test]
fn address_errors_come_in_reading_order() {
    assert_eq!(Address::read_from(&[], 0), Err(CodecError::Truncated));
    assert_eq!(Address::read_from(&[0x07], 0), Err(CodecError::MalformedFrame));
    assert_eq!(Address::read_from(&[0x00], 0), Err(CodecError::Truncated));
    assert_eq!(Address::read_from(&[0x00, 3, b'a'], 0), Err(CodecError::Truncated));
    assert_eq!(Address::read_from(&[0x00, 1, b'a', 0x00], 0), Err(CodecError::Truncated));
    assert_eq!(Address::read_from(&[0x00, 1, 0xff], 0), Err(CodecError::MalformedFrame));
}

#[test]
fn authenticate_round_trip() {
    let mut token = [0u8; 32];
    for (i, b) in token.iter_mut().enumerate() {
        *b = i as u8;
    }
    let uuid: u128 = 0xa1a2a3a4_b1b2_c1c2_d1d2_d3d4d5d6d7d8;
    let command = Command::Authenticate(Authenticate::new(uuid, token));
    let bytes = written(&command);
    assert_eq!(bytes.len(), 2 + 16 + 32);
    assert_eq!(&bytes[..2], &[0x05, 0x00]);
    assert_eq!(&bytes[2..18], &uuid.to_be_bytes());
    assert_eq!(&bytes[18..], &token);
    assert_eq!(Command::read_from(&bytes, 0), Ok((command, 50)));
    assert_eq!(Command::read_from(&bytes[..49], 0), Err(CodecError::Truncated));
}

#[test]
fn connect_round_trip() {
    let command = Command::Connect(Connect::new(Address::DomainAddress(
        "example.test".to_string(),
        80,
    )));
    let bytes = written(&command);
    assert_eq!(&bytes[..2], &[0x05, 0x01]);
    assert_eq!(Command::read_from(&bytes, 0), Ok((command, 18)));
}

#[test]
fn dissociate_round_trip() {
    let command = Command::Dissociate(Dissociate::new(0xbeef));
    let bytes = written(&command);
    assert_eq!(bytes, vec![0x05, 0x03, 0xbe, 0xef]);
    assert_eq!(Command::read_from(&bytes, 0), Ok((command, 4)));
    assert_eq!(Command::read_from(&bytes[..3], 0), Err(CodecError::Truncated));
    assert_eq!(Dissociate::new(7).assoc_id(), 7);
}

#[test]
fn heartbeat_round_trip() {
    let command = Command::Heartbeat(Heartbeat::new());
    let bytes = written(&command);
    assert_eq!(bytes, vec![0x05, 0x04]);
    assert_eq!(Command::read_from(&bytes, 0), Ok((command, 2)));
}

#[test]
fn write_packet_then_read_packet() {
    let packet = Packet {
        header: Header::new(CommandType::Packet),
        assoc_id: 0x0102,
        pkt_id: 0x0304,
        frag_total: 3,
        frag_id: 1,
        size: 3,
        address: Address::SocketAddress(v4(10, 0, 0, 1, 53)),
        payload: vec![b'a', b'b', b'c'],
    };
    assert!(packet.is_valid());
    let mut bytes: Vec<u8> = Vec::new();
    packet.write_to_buf(&mut bytes);
    assert_eq!(
        bytes,
        vec![
            0x05, 0x02, 0x01, 0x02, 0x03, 0x04, 3, 1, 0x00, 0x03, 0x01, 10, 0, 0, 1, 0x00, 53,
            b'a', b'b', b'c'
        ]
    );
    assert_eq!(packet.estimate_size(), bytes.len());
    let (command, used) = Command::read_from(&bytes, 0).unwrap();
    assert_eq!(used, bytes.len());
    match command {
        Command::Packet(back) => {
            assert_eq!(back.header, packet.header);
            assert_eq!(back.assoc_id, 0x0102);
            assert_eq!(back.pkt_id, 0x0304);
            assert_eq!(back.frag_total, 3);
            assert_eq!(back.frag_id, 1);
            assert_eq!(back.size, 3);
            assert_eq!(back.address, packet.address);
            assert_eq!(back.payload, packet.payload);
        }
        other => panic!("not a packet: {:?}", other),
    }
}

#[test]
fn packet_needs_all_of_its_payload() {
    let packet = Packet {
        header: Header::new(CommandType::Packet),
        assoc_id: 1,
        pkt_id: 2,
        frag_total: 1,
        frag_id: 0,
        size: 4,
        address: Address::Absent,
        payload: vec![1, 2, 3, 4],
    };
    let mut bytes: Vec<u8> = Vec::new();
    packet.write_to_buf(&mut bytes);
    assert_eq!(Command::read_from(&bytes[..bytes.len() - 1], 0), Err(CodecError::Truncated));
    bytes.extend_from_slice(&[9, 9]);
    let (command, used) = Command::read_from(&bytes, 0).unwrap();
    assert_eq!(used, bytes.len() - 2);
    assert_eq!(command, Command::Packet(packet));
}

#[test]
fn packet_of_size_0_is_permitted() {
    let packet = Packet {
        header: Header::new(CommandType::Packet),
        assoc_id: 1,
        pkt_id: 2,
        frag_total: 1,
        frag_id: 0,
        size: 0,
        address: Address::Absent,
        payload: Vec::new(),
    };
    let bytes = written(&Command::Packet(Packet { ..clone_packet(&packet) }));
    assert_eq!(bytes, vec![0x05, 0x02, 0, 1, 0, 2, 1, 0, 0, 0, 0xFF]);
    assert_eq!(Command::read_from(&bytes, 0), Ok((Command::Packet(packet), 11)));
}

fn clone_packet(p: &Packet) -> Packet {
    Packet {
        header: p.header,
        assoc_id: p.assoc_id,
        pkt_id: p.pkt_id,
        frag_total: p.frag_total,
        frag_id: p.frag_id,
        size: p.size,
        address: p.address.clone(),
        payload: p.payload.clone(),
    }
}

#[test]
fn a_command_whose_header_names_another_is_not_valid() {
    let mut dissociate = Dissociate::new(1);
    dissociate.header = Header::new(CommandType::Heartbeat);
    assert!(!Command::Dissociate(dissociate).is_valid());
    let packet = Packet {
        header: Header::new(CommandType::Packet),
        assoc_id: 1,
        pkt_id: 2,
        frag_total: 1,
        frag_id: 0,
        size: 5,
        address: Address::Absent,
        payload: vec![1],
    };
    assert!(!packet.is_valid());
    assert_eq!(Command::Connect(Connect::new(Address::Absent)).command_type(), CommandType::Connect);
}

#[test]
fn the_longest_command_has_65804_bytes() {
    let packet = Packet {
        header: Header::new(CommandType::Packet),
        assoc_id: 1,
        pkt_id: 2,
        frag_total: 1,
        frag_id: 0,
        size: u16::MAX,
        address: Address::DomainAddress("a".repeat(255), 1),
        payload: vec![0u8; 65535],
    };
    let bytes = written(&Command::Packet(packet));
    assert_eq!(bytes.len(), iway::protocol::tuic::command::MAX_COMMAND_LEN);
    assert_eq!(bytes.len(), 65_804);
}

#[test]
fn a_buffer_is_read_from_its_start() {
    let header = Header::new(CommandType::Dissociate);
    assert_eq!(Header::read_from_buf(&[0x05, 0x03, 0x00, 0x07]), Ok((header, 2)));
    assert_eq!(Header::read_from_buf(&[0x05]), Err(CodecError::Truncated));
    assert_eq!(
        Dissociate::read_from_buf(header, &[0x00, 0x07]),
        Ok((Dissociate { header, asso_id: 7 }, 2))
    );
    assert_eq!(Dissociate::read_from_buf(header, &[0x00]), Err(CodecError::Truncated));
    let connect = Header::new(CommandType::Connect);
    assert_eq!(
        Connect::read_from_buf(connect, &[0x01, 1, 2, 3, 4, 0, 80]),
        Ok((Connect { header: connect, address: Address::SocketAddress(v4(1, 2, 3, 4, 80)) }, 7))
    );
    assert_eq!(Connect::read_from_buf(connect, &[0x09]), Err(CodecError::MalformedFrame));
}

#[test]
fn commands_are_read_at_a_position() {
    let mut bytes: Vec<u8> = vec![0xaa, 0xbb];
    bytes.extend_from_slice(&written(&Command::Dissociate(Dissociate::new(9))));
    assert_eq!(
        Command::read_from(&bytes, 2),
        Ok((Command::Dissociate(Dissociate::new(9)), 6))
    );
    assert_eq!(Command::read_from(&bytes, 0), Err(CodecError::MalformedFrame));
    assert_eq!(Command::read_from(&bytes, 99), Err(CodecError::Truncated));
}
