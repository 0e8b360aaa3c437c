use iway::processor::tuic::bitmap::{set_bit, test_bit};
use iway::processor::tuic::reassembly::{ReassemblyBuffer, UdpError, UdpFragment};
use iway::protocol::tuic::address::Address;
use iway::protocol::tuic::command::command_type::CommandType;
use iway::protocol::tuic::command::packet::Packet;
use iway::protocol::tuic::header::Header;

#[test]
fn a_new_buffer_is_empty() {
    let buffer = ReassemblyBuffer::new(3, 42);
    assert_eq!(buffer.frag_total(), 3);
    assert_eq!(buffer.received_count(), 0);
    assert_eq!(buffer.total_bytes(), 0);
    assert_eq!(buffer.last_update(), 42);
    assert!(!buffer.is_complete());
    assert_eq!(buffer.payload(), Vec::<u8>::new());
}

#[test]
fn the_count_follows_the_fragments() {
    let mut buffer = ReassemblyBuffer::new(4, 0);
    assert_eq!(buffer.insert(2, vec![1, 2, 3], None, 1), Ok(None));
    assert_eq!(buffer.received_count(), 1);
    assert_eq!(buffer.total_bytes(), 3);
    assert_eq!(buffer.insert(0, vec![4], None, 2), Ok(None));
    assert_eq!(buffer.received_count(), 2);
    assert_eq!(buffer.total_bytes(), 4);
    assert_eq!(buffer.insert(2, vec![9, 9], None, 3), Ok(None));
    assert_eq!(buffer.received_count(), 2);
    assert_eq!(buffer.total_bytes(), 4);
    assert_eq!(buffer.insert(3, vec![5, 6], None, 4), Ok(None));
    assert_eq!(buffer.received_count(), 3);
    assert!(!buffer.is_complete());
    assert_eq!(buffer.insert(1, vec![7], None, 5), Ok(Some(vec![4, 7, 1, 2, 3, 5, 6])));
    assert_eq!(buffer.received_count(), 4);
    assert!(buffer.is_complete());
    assert_eq!(buffer.last_update(), 5);
}

#[test]
fn a_duplicate_fragment_changes_nothing() {
    let mut buffer = ReassemblyBuffer::new(2, 0);
    assert_eq!(buffer.insert(1, vec![1, 2], None, 10), Ok(None));
    assert_eq!(buffer.insert(1, vec![8, 8, 8], None, 20), Ok(None));
    assert_eq!(buffer.received_count(), 1);
    assert_eq!(buffer.total_bytes(), 2);
    assert_eq!(buffer.last_update(), 10);
    assert!(!buffer.is_complete());
    assert_eq!(buffer.insert(0, vec![0], None, 30), Ok(Some(vec![0, 1, 2])));
    assert_eq!(buffer.insert(0, vec![5], None, 40), Ok(None));
    assert_eq!(buffer.insert(1, vec![5], None, 40), Ok(None));
    assert!(buffer.is_complete());
    assert_eq!(buffer.payload(), vec![0, 1, 2]);
    assert_eq!(buffer.last_update(), 30);
}

#[test]
fn a_fragment_number_must_be_below_the_count() {
    let mut buffer = ReassemblyBuffer::new(2, 0);
    assert_eq!(buffer.insert(2, vec![1], None, 1), Err(UdpError::InvalidFragmentId));
    assert_eq!(buffer.insert(255, vec![1], None, 1), Err(UdpError::InvalidFragmentId));
    assert_eq!(buffer.received_count(), 0);
    let mut none = ReassemblyBuffer::new(0, 0);
    assert_eq!(none.insert(0, vec![1], None, 1), Err(UdpError::InvalidFragmentId));
}

#[test]
fn a_buffer_holds_no_more_than_its_limit() {
    let mut buffer = ReassemblyBuffer::new(3, 0);
    assert_eq!(buffer.insert(0, vec![0; 6], Some(10), 1), Ok(None));
    assert_eq!(buffer.insert(1, vec![0; 5], Some(10), 2), Err(UdpError::SessionTooLarge));
    assert_eq!(buffer.received_count(), 1);
    assert_eq!(buffer.total_bytes(), 6);
    assert_eq!(buffer.last_update(), 1);
    assert_eq!(buffer.insert(1, vec![0; 4], Some(10), 3), Ok(None));
    assert_eq!(buffer.total_bytes(), 10);
    assert_eq!(buffer.insert(2, vec![0; 1], Some(10), 4), Err(UdpError::SessionTooLarge));
    assert_eq!(buffer.insert(2, Vec::new(), Some(10), 5), Ok(Some(vec![0; 10])));
}

#[test]
fn a_packet_of_128_fragments_is_permitted() {
    let mut buffer = ReassemblyBuffer::new(128, 0);
    for i in 0..127u8 {
        assert_eq!(buffer.insert(127 - i, vec![127 - i], None, 1), Ok(None));
        assert_eq!(buffer.received_count(), i as usize + 1);
    }
    let want: Vec<u8> = (0..128u8).collect();
    assert_eq!(buffer.insert(0, vec![0], None, 2), Ok(Some(want)));
    assert!(buffer.is_complete());
    assert_eq!(buffer.insert(128, vec![0], None, 3), Err(UdpError::InvalidFragmentId));
}

#[test]
fn a_payload_of_size_0_is_assembled_as_empty() {
    let mut buffer = ReassemblyBuffer::new(1, 0);
    assert_eq!(buffer.insert(0, Vec::new(), None, 1), Ok(Some(Vec::new())));
    let mut two = ReassemblyBuffer::new(2, 0);
    assert_eq!(two.insert(0, Vec::new(), Some(0), 1), Ok(None));
    assert_eq!(two.insert(1, Vec::new(), Some(0), 1), Ok(Some(Vec::new())));
}

#[test]
fn a_buffer_expires_after_its_timeout() {
    let mut buffer = ReassemblyBuffer::new(2, 1000);
    assert!(!buffer.is_expired(1000, 30_000));
    assert!(!buffer.is_expired(31_000, 30_000));
    assert!(buffer.is_expired(31_001, 30_000));
    assert!(!buffer.is_expired(999, 30_000));
    assert!(!buffer.is_expired(0, 0));
    assert!(buffer.is_expired(1001, 0));
    assert_eq!(buffer.insert(0, vec![1], None, 20_000), Ok(None));
    assert!(!buffer.is_expired(31_001, 30_000));
    assert!(buffer.is_expired(50_001, 30_000));
}

#[test]
fn a_shrunk_buffer_holds_nothing() {
    let mut buffer = ReassemblyBuffer::new(2, 7);
    assert_eq!(buffer.insert(0, vec![1, 2, 3], None, 9), Ok(None));
    buffer.shrink_to_fit();
    assert_eq!(buffer.frag_total(), 0);
    assert_eq!(buffer.received_count(), 0);
    assert_eq!(buffer.total_bytes(), 0);
    assert_eq!(buffer.last_update(), 9);
    assert_eq!(buffer.payload(), Vec::<u8>::new());
}

#[test]
fn a_fragment_is_a_packet_without_header_and_address() {
    let packet = Packet {
        header: Header::new(CommandType::Packet),
        assoc_id: 3,
        pkt_id: 4,
        frag_total: 5,
        frag_id: 2,
        size: 2,
        address: Address::Absent,
        payload: vec![8, 9],
    };
    let fragment = UdpFragment::from_packet(&packet);
    assert_eq!(
        fragment,
        UdpFragment { assoc_id: 3, pkt_id: 4, frag_id: 2, frag_total: 5, payload: vec![8, 9] }
    );
}

#[test]
fn bits_are_set_one_by_one() {
    let mut bitmap: u128 = 0;
    for i in [0u8, 1, 63, 64, 127] {
        assert!(!test_bit(bitmap, i));
        bitmap = set_bit(bitmap, i);
        assert!(test_bit(bitmap, i));
    }
    assert_eq!(bitmap, 1 | 2 | (1 << 63) | (1 << 64) | (1 << 127));
    assert!(!test_bit(bitmap, 2));
    assert_eq!(set_bit(bitmap, 64), bitmap);
}
