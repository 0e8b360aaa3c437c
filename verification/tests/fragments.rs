use iway::net::{IpAddress, SocketAddress};
use iway::processor::tuic::reassembly::ReassemblyBuffer;
use iway::protocol::tuic::address::Address;
use iway::protocol::tuic::command::command_type::CommandType;
use iway::protocol::tuic::command::packet::{
    Packet, MAX_FRAGMENTS, MAX_PAYLOAD, MAX_PAYLOAD_PER_PACKET,
};
use iway::protocol::tuic::header::Header;

fn payload_of(len: usize) -> Vec<u8> {
    (0..len).map(|i| (i % 251) as u8).collect()
}

fn target() -> Address {
    Address::SocketAddress(SocketAddress { ip: IpAddress::V4(0x7f00_0001), port: 9999 })
}

fn reassemble(packets: &[Packet], order: &[usize]) -> Option<Vec<u8>> {
    let mut buffer = ReassemblyBuffer::new(packets[0].frag_total, 0);
    let mut done: Option<Vec<u8>> = None;
    for (step, &i) in order.iter().enumerate() {
        let r = buffer.insert(packets[i].frag_id, packets[i].payload.clone(), None, step as u64);
        let r = r.unwrap();
        if step + 1 < order.len() {
            assert_eq!(r, None);
        } else {
            done = r;
        }
    }
    done
}

#[test]
fn a_payload_of_2500_bytes_gives_three_fragments() {
    let payload = payload_of(2500);
    let packets = Packet::get_packets_from(&payload, 7, 9, target());
    assert_eq!(packets.len(), 3);
    let sizes: Vec<usize> = packets.iter().map(|p| p.payload.len()).collect();
    assert_eq!(sizes, vec![1200, 1200, 100]);
    for (i, p) in packets.iter().enumerate() {
        assert_eq!(p.header, Header::new(CommandType::Packet));
        assert_eq!(p.assoc_id, 7);
        assert_eq!(p.pkt_id, 9);
        assert_eq!(p.frag_total, 3);
        assert_eq!(p.frag_id as usize, i);
        assert_eq!(p.size as usize, p.payload.len());
        assert!(p.is_valid());
        assert!(!p.only_one_frag());
    }
    assert_eq!(packets[0].address, target());
    assert_eq!(packets[1].address, Address::Absent);
    assert_eq!(packets[2].address, Address::Absent);
    assert_eq!(&packets[0].payload[..], &payload[..1200]);
    assert_eq!(&packets[1].payload[..], &payload[1200..2400]);
    assert_eq!(&packets[2].payload[..], &payload[2400..]);
}

#[test]
fn the_number_of_fragments_is_the_length_over_1200_rounded_up() {
    assert_eq!(MAX_PAYLOAD_PER_PACKET, 1200);
    assert_eq!(MAX_FRAGMENTS, 128);
    assert_eq!(MAX_PAYLOAD, 128 * 1200);
    for (len, want) in [(0usize, 0usize), (1, 1), (1199, 1), (1200, 1), (1201, 2), (2400, 2), (2401, 3)] {
        let packets = Packet::get_packets_from(&payload_of(len), 1, 1, Address::Absent);
        assert_eq!(packets.len(), want, "length {}", len);
        for p in &packets {
            assert_eq!(p.frag_total as usize, want);
            assert!(p.payload.len() <= 1200);
        }
    }
}

#[test]
fn the_longest_payload_gives_128_fragments() {
    let payload = payload_of(MAX_PAYLOAD);
    let packets = Packet::get_packets_from(&payload, 1, 2, target());
    assert_eq!(packets.len(), 128);
    assert_eq!(packets[127].frag_id, 127);
    assert_eq!(packets[127].frag_total, 128);
    assert_eq!(packets[127].payload.len(), 1200);
    let order: Vec<usize> = (0..128).collect();
    assert_eq!(reassemble(&packets, &order), Some(payload));
}

#[test]
fn a_payload_that_needs_129_fragments_is_not_cut() {
    assert_eq!(Packet::fragment(&payload_of(MAX_PAYLOAD + 1), 1, 2, target()), None);
    let cut = Packet::fragment(&payload_of(MAX_PAYLOAD), 1, 2, target()).unwrap();
    assert_eq!(cut.len(), 128);
    assert_eq!(
        Packet::fragment(b"abc", 1, 2, target()),
        Some(Packet::get_packets_from(b"abc", 1, 2, target()))
    );
}

#[test]
fn a_single_fragment_is_the_only_one() {
    let packets = Packet::get_packets_from(b"abc", 4, 5, target());
    assert_eq!(packets.len(), 1);
    assert!(packets[0].only_one_frag());
    assert_eq!(packets[0].payload, b"abc".to_vec());
    assert_eq!(packets[0].address, target());
}

#[test]
fn fragments_put_together_give_the_payload() {
    for len in [1usize, 1200, 1201, 2500, 5000, 12345] {
        let payload = payload_of(len);
        let packets = Packet::get_packets_from(&payload, 3, 4, target());
        let order: Vec<usize> = (0..packets.len()).collect();
        assert_eq!(reassemble(&packets, &order), Some(payload), "length {}", len);
    }
}

#[test]
fn fragments_in_any_order_give_the_same_payload() {
    let payload = payload_of(4000);
    let packets = Packet::get_packets_from(&payload, 3, 4, target());
    assert_eq!(packets.len(), 4);
    let orders: [[usize; 4]; 6] =
        [[0, 1, 2, 3], [3, 2, 1, 0], [1, 3, 0, 2], [2, 0, 3, 1], [0, 2, 1, 3], [3, 0, 1, 2]];
    for order in orders {
        assert_eq!(reassemble(&packets, &order), Some(payload.clone()), "order {:?}", order);
    }
}

#[test]
fn the_size_estimate_is_the_written_length() {
    let payload = payload_of(1500);
    let domain = Address::DomainAddress("example.test".to_string(), 53);
    let packets = Packet::get_packets_from(&payload, 1, 2, domain);
    let mut lengths: Vec<usize> = Vec::new();
    for p in &packets {
        let mut out: Vec<u8> = Vec::new();
        p.write_to_buf(&mut out);
        assert_eq!(p.estimate_size(), out.len());
        lengths.push(out.len());
    }
    assert_eq!(lengths, vec![10 + 16 + 1200, 10 + 1 + 300]);
}
