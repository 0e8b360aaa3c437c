use iway::authenticate::trojan::{password_hash, TrojanAuthenticationManager};
use iway::net::{IpAddress, SocketAddress};
use iway::processor::trojan::{
    next_udp_frame, udp_reply_frame, udp_send_plan, RuntimeContext, TrojanAction,
    TrojanConnectionProcessor, UdpSocketChoice, UdpStep,
};
use iway::protocol::trojan::address::{Address, AddressType};
use iway::protocol::trojan::command::{
    read_trojan_udp_frame, write_trojan_udp_frame, CommandType, TrojanRequest, UdpFrame,
};
use iway::wire::CodecError;

fn peer() -> SocketAddress {
    SocketAddress { ip: IpAddress::V4(0xc633_6401), port: 51000 }
}

fn manager() -> TrojanAuthenticationManager {
    TrojanAuthenticationManager::new(vec!["abc".to_string()])
}

fn request_bytes(password: &[u8], command: u8, address: &[u8]) -> Vec<u8> {
    let mut out = password_hash(password);
    out.extend_from_slice(b"\r\n");
    out.push(command);
    out.extend_from_slice(address);
    out.extend_from_slice(b"\r\n");
    out
}

const DOMAIN: [u8; 16] =
    [0x03, 12, b'e', b'x', b'a', b'm', b'p', b'l', b'e', b'.', b't', b'e', b's', b't', 0x00, 0x50];

#[test]
fn trojan_types_have_their_bytes() {
    assert_eq!(AddressType::from_u8(0x01), Ok(AddressType::IPv4));
    assert_eq!(AddressType::from_u8(0x03), Ok(AddressType::DomainName));
    assert_eq!(AddressType::from_u8(0x04), Ok(AddressType::IPv6));
    assert_eq!(AddressType::from_u8(0x00), Err(CodecError::MalformedFrame));
    assert_eq!(AddressType::from_u8(0x02), Err(CodecError::MalformedFrame));
    assert_eq!(AddressType::IPv6.to_byte(), 0x04);
    assert_eq!(CommandType::from_u8(0x01), Ok(CommandType::Connect));
    assert_eq!(CommandType::from_u8(0x03), Ok(CommandType::UdpAssociate));
    assert_eq!(CommandType::from_u8(0x02), Err(CodecError::MalformedFrame));
    assert_eq!(CommandType::UdpAssociate.to_byte(), 0x03);
}

#[test]
fn trojan_addresses_round_trip() {
    let v4 = Address::Socket(SocketAddress { ip: IpAddress::V4(0x0102_0304), port: 443 });
    let v6 = Address::Socket(SocketAddress { ip: IpAddress::V6(1), port: 8 });
    let domain = Address::Domain("example.test".to_string(), 80);
    let mut out: Vec<u8> = Vec::new();
    v4.write_to_buf(&mut out);
    assert_eq!(out, vec![0x01, 1, 2, 3, 4, 0x01, 0xbb]);
    assert_eq!(Address::read_from(&out, 0), Ok((v4.clone(), 7)));
    out.clear();
    v6.write_to_buf(&mut out);
    assert_eq!(out.len(), 19);
    assert_eq!(out[0], 0x04);
    assert_eq!(out[16], 1);
    assert_eq!(Address::read_from(&out, 0), Ok((v6.clone(), 19)));
    out.clear();
    domain.write_to_buf(&mut out);
    assert_eq!(out, DOMAIN.to_vec());
    assert_eq!(Address::read_from(&out, 0), Ok((domain.clone(), 16)));
    assert_eq!(v4.addr_type(), AddressType::IPv4);
    assert_eq!(v6.addr_type(), AddressType::IPv6);
    assert_eq!(domain.addr_type(), AddressType::DomainName);
    assert_eq!(domain.port(), 80);
    assert_eq!(v4.port(), 443);
    assert!(domain.is_domain());
    assert!(domain.is_valid());
    assert!(!Address::Domain(String::new(), 1).is_valid());
}

#[test]
fn a_trojan_address_as_text() {
    let v4 = Address::Socket(SocketAddress { ip: IpAddress::V4(0x0102_0304), port: 443 });
    assert_eq!(v4.to_address_string(), "1.2.3.4:443");
    let edge = Address::Socket(SocketAddress { ip: IpAddress::V4(0xff00_0a64), port: 0 });
    assert_eq!(edge.to_address_string(), "255.0.10.100:0");
    let domain = Address::Domain("example.test".to_string(), 65535);
    assert_eq!(domain.to_address_string(), "example.test:65535");
    let local = Address::Socket(SocketAddress { ip: IpAddress::V6(1), port: 8 });
    assert_eq!(local.to_address_string(), "0:0:0:0:0:0:0:1:8");
    let v6 = Address::Socket(SocketAddress {
        ip: IpAddress::V6(0x2001_0db8_0000_0000_00ab_0000_ffff_0007),
        port: 53,
    });
    assert_eq!(v6.to_address_string(), "2001:db8:0:0:ab:0:ffff:7:53");
}

#[test]
fn trojan_addresses_are_refused_like_the_others() {
    assert_eq!(Address::read_from(&[0x03, 0, 0x00, 0x50], 0), Err(CodecError::MalformedFrame));
    assert_eq!(Address::read_from(&[0x03, 1, 0xff, 0x00, 0x50], 0), Err(CodecError::MalformedFrame));
    assert_eq!(Address::read_from(&[0x00], 0), Err(CodecError::MalformedFrame));
    assert_eq!(Address::read_from(&[0xff], 0), Err(CodecError::MalformedFrame));
    assert_eq!(Address::read_from(&[0x01, 1, 2, 3], 0), Err(CodecError::Truncated));
    assert_eq!(Address::read_from(&[], 0), Err(CodecError::Truncated));
    let name: Vec<u8> = vec![b'a'; 255];
    let mut long: Vec<u8> = vec![0x03, 255];
    long.extend_from_slice(&name);
    long.extend_from_slice(&[0x1f, 0x90]);
    assert_eq!(
        Address::read_from(&long, 0),
        Ok((Address::Domain("a".repeat(255), 8080), 259))
    );
}

#[test]
fn a_request_of_a_known_user_is_read() {
    let m = manager();
    let mut bytes = request_bytes(b"abc", 0x01, &DOMAIN);
    let consumed = bytes.len();
    assert_eq!(consumed, 56 + 2 + 1 + 16 + 2);
    bytes.extend_from_slice(b"GET / HTTP/1.1\r\n");
    let want = TrojanRequest {
        command: CommandType::Connect,
        address: Address::Domain("example.test".to_string(), 80),
    };
    assert_eq!(TrojanRequest::read_from(&bytes, &m), Ok(Some((want, consumed))));
    let udp = request_bytes(b"abc", 0x03, &[0x01, 0, 0, 0, 0, 0, 0]);
    match TrojanRequest::read_from(&udp, &m) {
        Ok(Some((request, n))) => {
            assert_eq!(request.command, CommandType::UdpAssociate);
            assert_eq!(n, udp.len());
        }
        other => panic!("no request: {:?}", other),
    }
}

#[test]
fn a_request_is_written_as_it_is_read() {
    let m = manager();
    let request = TrojanRequest {
        command: CommandType::Connect,
        address: Address::Domain("example.test".to_string(), 80),
    };
    let mut out: Vec<u8> = Vec::new();
    request.write_to_buf(&password_hash(b"abc"), &mut out);
    assert_eq!(out, request_bytes(b"abc", 0x01, &DOMAIN));
    assert_eq!(TrojanRequest::read_from(&out, &m), Ok(Some((request, out.len()))));
}

#[test]
fn the_longest_request_has_320_bytes() {
    let request = TrojanRequest {
        command: CommandType::Connect,
        address: Address::Domain("a".repeat(255), 80),
    };
    let mut out: Vec<u8> = Vec::new();
    request.write_to_buf(&password_hash(b"abc"), &mut out);
    assert_eq!(out.len(), iway::protocol::trojan::command::MAX_REQUEST_LEN);
    assert_eq!(out.len(), 320);
}

#[test]
fn what_is_not_a_request_is_no_request() {
    let m = manager();
    let good = request_bytes(b"abc", 0x01, &DOMAIN);
    assert_eq!(TrojanRequest::read_from(&request_bytes(b"abd", 0x01, &DOMAIN), &m), Ok(None));
    assert_eq!(TrojanRequest::read_from(&request_bytes(b"abc", 0x02, &DOMAIN), &m), Ok(None));
    assert_eq!(TrojanRequest::read_from(&request_bytes(b"abc", 0x01, &[0x07, 1, 2]), &m), Ok(None));
    assert_eq!(
        TrojanRequest::read_from(&request_bytes(b"abc", 0x01, &[0x03, 0, 0, 80]), &m),
        Ok(None)
    );
    let mut bad_line = good.clone();
    bad_line[56] = b'\n';
    assert_eq!(TrojanRequest::read_from(&bad_line, &m), Ok(None));
    let mut bad_end = good.clone();
    let last = bad_end.len() - 1;
    bad_end[last] = b'x';
    assert_eq!(TrojanRequest::read_from(&bad_end, &m), Ok(None));
    assert_eq!(
        TrojanRequest::read_from(b"GET / HTTP/1.1\r\nHost: example.test\r\nUser-Agent: curl/8\r\n\r\n", &m),
        Ok(None)
    );
}

#[test]
fn a_request_that_ends_early_is_truncated() {
    let m = manager();
    let good = request_bytes(b"abc", 0x01, &DOMAIN);
    for cut in [0usize, 1, 55, 57, 58, 59, 60, good.len() - 3, good.len() - 1] {
        assert_eq!(
            TrojanRequest::read_from(&good[..cut], &m),
            Err(CodecError::Truncated),
            "cut at {}",
            cut
        );
    }
    let unknown = request_bytes(b"zzz", 0x01, &DOMAIN);
    assert_eq!(TrojanRequest::read_from(&unknown[..58], &m), Ok(None));
}

#[test]
fn a_connection_is_relayed_dropped_or_sent_to_the_fallback() {
    let fallback = SocketAddress { ip: IpAddress::V4(0x7f00_0001), port: 80 };
    let silent = TrojanConnectionProcessor::new(manager());
    let polite = TrojanConnectionProcessor::new(manager()).with_fallback_addr(fallback);
    let good = request_bytes(b"abc", 0x01, &DOMAIN);
    let probe = request_bytes(b"nope", 0x01, &DOMAIN);

    let mut context = RuntimeContext::new(peer());
    assert!(!context.authenticated);
    assert_eq!(silent.process_connection_tls(&probe, &mut context), TrojanAction::Close);
    assert_eq!(polite.process_connection_tls(&probe, &mut context), TrojanAction::Fallback(fallback));
    assert_eq!(polite.process_connection_tls(&good[..30], &mut context), TrojanAction::NeedMore);
    assert!(!context.authenticated);
    assert_eq!(silent.no_request(), TrojanAction::Close);
    assert_eq!(polite.no_request(), TrojanAction::Fallback(fallback));
    assert_eq!(
        polite.process_connection_tls(&good, &mut context),
        TrojanAction::Connect {
            address: Address::Domain("example.test".to_string(), 80),
            consumed: good.len()
        }
    );
    assert!(context.authenticated);
    assert_eq!(context.client_addr, peer());
    let udp = request_bytes(b"abc", 0x03, &[0x01, 0, 0, 0, 0, 0, 0]);
    let mut other = RuntimeContext::new(peer());
    assert_eq!(
        silent.process_connection_tls(&udp, &mut other),
        TrojanAction::UdpAssociate { consumed: udp.len() }
    );
    assert!(other.authenticated);
}

#[test]
fn a_udp_frame_carries_address_length_and_payload() {
    let dst = Address::Socket(SocketAddress { ip: IpAddress::V4(0x0808_0808), port: 53 });
    let mut out: Vec<u8> = Vec::new();
    write_trojan_udp_frame(&mut out, &dst, b"query");
    assert_eq!(
        out,
        vec![0x01, 8, 8, 8, 8, 0x00, 53, 0x00, 0x05, b'\r', b'\n', b'q', b'u', b'e', b'r', b'y']
    );
    let frame = UdpFrame { dst: dst.clone(), payload: b"query".to_vec() };
    assert_eq!(read_trojan_udp_frame(&out, 0), Ok((frame, 16)));
    assert_eq!(read_trojan_udp_frame(&out[..15], 0), Err(CodecError::Truncated));
    assert_eq!(read_trojan_udp_frame(&out[..9], 0), Err(CodecError::Truncated));
    let mut bad = out.clone();
    bad[9] = b'\n';
    assert_eq!(read_trojan_udp_frame(&bad, 0), Err(CodecError::MalformedFrame));
    let mut empty: Vec<u8> = Vec::new();
    write_trojan_udp_frame(&mut empty, &dst, b"");
    assert_eq!(
        read_trojan_udp_frame(&empty, 0),
        Ok((UdpFrame { dst, payload: Vec::new() }, 11))
    );
}

#[test]
fn frames_follow_each_other_on_the_stream() {
    let a = Address::Socket(SocketAddress { ip: IpAddress::V4(1), port: 1 });
    let b = Address::Domain("example.test".to_string(), 53);
    let mut stream: Vec<u8> = Vec::new();
    write_trojan_udp_frame(&mut stream, &a, b"one");
    let second = stream.len();
    write_trojan_udp_frame(&mut stream, &b, b"two!");
    let end = stream.len();
    assert_eq!(
        next_udp_frame(&stream, 0),
        UdpStep::Send { frame: UdpFrame { dst: a, payload: b"one".to_vec() }, next: second }
    );
    assert_eq!(
        next_udp_frame(&stream, second),
        UdpStep::Send { frame: UdpFrame { dst: b, payload: b"two!".to_vec() }, next: end }
    );
    assert_eq!(next_udp_frame(&stream, end), UdpStep::NeedMore);
    assert_eq!(next_udp_frame(&stream[..end - 1], second), UdpStep::NeedMore);
    assert_eq!(next_udp_frame(&[0x09], 0), UdpStep::Stop);
}

#[test]
fn an_answer_goes_back_in_the_same_framing() {
    let src = SocketAddress { ip: IpAddress::V6(0x2001_0db8_0000_0000_0000_0000_0000_0007), port: 53 };
    let frame = udp_reply_frame(src, b"answer");
    assert_eq!(
        read_trojan_udp_frame(&frame, 0),
        Ok((UdpFrame { dst: Address::Socket(src), payload: b"answer".to_vec() }, frame.len()))
    );
    assert_eq!(frame.len(), 19 + 2 + 2 + 6);
}

#[test]
fn a_payload_leaves_from_the_socket_of_its_family() {
    let v4 = SocketAddress { ip: IpAddress::V4(0x0102_0304), port: 53 };
    let v6 = SocketAddress { ip: IpAddress::V6(9), port: 53 };
    let mapped = SocketAddress { ip: IpAddress::V6(0xffff_0102_0304), port: 53 };
    assert_eq!(udp_send_plan(v4, true, false, false), Some((UdpSocketChoice::Dual, mapped)));
    assert_eq!(udp_send_plan(v6, true, true, true), Some((UdpSocketChoice::Dual, v6)));
    assert_eq!(udp_send_plan(v4, false, true, true), Some((UdpSocketChoice::V4, v4)));
    assert_eq!(udp_send_plan(v6, false, true, true), Some((UdpSocketChoice::V6, v6)));
    assert_eq!(udp_send_plan(v4, false, false, true), None);
    assert_eq!(udp_send_plan(v6, false, true, false), None);
    assert_eq!(v4.to_ipv6_mapped(), mapped);
    assert_eq!(v6.to_ipv6_mapped(), v6);
}
