use iway::net::{IpAddress, SocketAddress};
use iway::processor::tuic::reassembly::{UdpError, UdpFragment};
use iway::processor::tuic::udp_session_manager::{key_in_session, session_key, UdpSessionManager};

fn client(last: u8, port: u16) -> SocketAddress {
    SocketAddress { ip: IpAddress::V4(0x0a00_0000 + last as u32), port }
}

fn frag(assoc_id: u16, pkt_id: u16, frag_id: u8, frag_total: u8, payload: &[u8]) -> UdpFragment {
    UdpFragment { assoc_id, pkt_id, frag_id, frag_total, payload: payload.to_vec() }
}

#[test]
fn a_new_store_is_empty_and_has_no_limits() {
    let store = UdpSessionManager::new(30_000, 30_000);
    assert_eq!(store.session_count(), 0);
    assert_eq!(store.session_timeout(), 30_000);
    assert_eq!(store.cleanup_interval(), 30_000);
}

#[test]
fn a_packet_of_one_fragment_is_complete_at_once() {
    let mut store = UdpSessionManager::new(30_000, 30_000);
    let r = store.receive_fragment(frag(1, 1, 0, 1, b"abc"), client(1, 5000), 0);
    assert_eq!(r, Ok(Some(b"abc".to_vec())));
    assert_eq!(store.session_count(), 0);
}

#[test]
fn a_packet_is_complete_with_its_last_fragment() {
    let mut store = UdpSessionManager::new(30_000, 30_000);
    let c = client(1, 5000);
    assert_eq!(store.receive_fragment(frag(1, 7, 1, 3, b"bb"), c, 0), Ok(None));
    assert_eq!(store.session_count(), 1);
    assert_eq!(store.receive_fragment(frag(1, 7, 2, 3, b"c"), c, 1), Ok(None));
    assert_eq!(store.receive_fragment(frag(1, 7, 1, 3, b"xx"), c, 2), Ok(None));
    assert_eq!(store.session_count(), 1);
    assert_eq!(store.receive_fragment(frag(1, 7, 0, 3, b"aaa"), c, 3), Ok(Some(b"aaabbc".to_vec())));
    assert_eq!(store.session_count(), 0);
    assert_eq!(store.receive_fragment(frag(1, 7, 0, 3, b"late"), c, 4), Ok(None));
    assert_eq!(store.session_count(), 1);
}

#[test]
fn packets_of_one_association_do_not_collide() {
    let mut store = UdpSessionManager::new(30_000, 30_000);
    let c = client(1, 5000);
    assert_eq!(store.receive_fragment(frag(1, 1, 0, 2, b"a"), c, 0), Ok(None));
    assert_eq!(store.receive_fragment(frag(1, 2, 0, 2, b"x"), c, 0), Ok(None));
    assert_eq!(store.session_count(), 2);
    assert_eq!(store.receive_fragment(frag(1, 2, 1, 2, b"y"), c, 0), Ok(Some(b"xy".to_vec())));
    assert_eq!(store.receive_fragment(frag(1, 1, 1, 2, b"b"), c, 0), Ok(Some(b"ab".to_vec())));
    assert_eq!(store.session_count(), 0);
}

#[test]
fn clients_do_not_share_buffers() {
    let mut store = UdpSessionManager::new(30_000, 30_000);
    let v4 = SocketAddress { ip: IpAddress::V4(1), port: 9 };
    let v6 = SocketAddress { ip: IpAddress::V6(1), port: 9 };
    let other_port = SocketAddress { ip: IpAddress::V4(1), port: 10 };
    assert_eq!(store.receive_fragment(frag(1, 1, 0, 2, b"a"), v4, 0), Ok(None));
    assert_eq!(store.receive_fragment(frag(1, 1, 1, 2, b"b"), v6, 0), Ok(None));
    assert_eq!(store.receive_fragment(frag(1, 1, 1, 2, b"c"), other_port, 0), Ok(None));
    assert_eq!(store.session_count(), 3);
    assert_eq!(store.receive_fragment(frag(1, 1, 1, 2, b"d"), v4, 0), Ok(Some(b"ad".to_vec())));
    assert_eq!(store.session_count(), 2);
    assert_ne!(session_key(v4, 1, 1), session_key(v6, 1, 1));
    assert_eq!(session_key(v4, 1, 2), (true, 1, 9, 1, 2));
    assert!(key_in_session(&session_key(v4, 1, 2), v4, 1));
    assert!(!key_in_session(&session_key(v4, 1, 2), v4, 2));
    assert!(!key_in_session(&session_key(v4, 1, 2), v6, 1));
}

#[test]
fn a_packet_of_129_fragments_is_rejected() {
    let mut store = UdpSessionManager::new(30_000, 30_000);
    let c = client(1, 5000);
    assert_eq!(
        store.receive_fragment(frag(1, 1, 0, 129, b"a"), c, 0),
        Err(UdpError::InvalidFragmentId)
    );
    assert_eq!(store.session_count(), 0);
    assert_eq!(store.receive_fragment(frag(1, 1, 0, 128, b"a"), c, 0), Ok(None));
    assert_eq!(store.session_count(), 1);
    assert_eq!(
        store.receive_fragment(frag(1, 1, 128, 128, b"a"), c, 0),
        Err(UdpError::InvalidFragmentId)
    );
    assert_eq!(store.session_count(), 1);
    assert_eq!(
        store.receive_fragment(frag(1, 2, 0, 0, b"a"), c, 0),
        Err(UdpError::InvalidFragmentId)
    );
    assert_eq!(store.session_count(), 1);
}

#[test]
fn a_buffer_that_grows_too_large_is_dropped() {
    let mut store = UdpSessionManager::new(30_000, 30_000);
    store.set_max_reassembly_bytes_per_session(Some(4));
    let c = client(1, 5000);
    assert_eq!(store.receive_fragment(frag(1, 1, 0, 3, b"abc"), c, 0), Ok(None));
    assert_eq!(store.session_count(), 1);
    assert_eq!(
        store.receive_fragment(frag(1, 1, 1, 3, b"de"), c, 0),
        Err(UdpError::SessionTooLarge)
    );
    assert_eq!(store.session_count(), 0);
    assert_eq!(
        store.receive_fragment(frag(1, 2, 0, 2, b"abcde"), c, 0),
        Err(UdpError::SessionTooLarge)
    );
    assert_eq!(store.session_count(), 0);
    store.set_max_reassembly_bytes_per_session(None);
    assert_eq!(store.receive_fragment(frag(1, 2, 0, 2, b"abcde"), c, 0), Ok(None));
}

#[test]
fn dissociate_drops_every_buffer_of_the_association() {
    let mut store = UdpSessionManager::new(30_000, 30_000);
    let c = client(1, 5000);
    let other = client(2, 5000);
    assert_eq!(store.receive_fragment(frag(7, 1, 0, 3, b"a"), c, 0), Ok(None));
    assert_eq!(store.receive_fragment(frag(7, 2, 0, 3, b"b"), c, 0), Ok(None));
    assert_eq!(store.receive_fragment(frag(8, 1, 0, 3, b"c"), c, 0), Ok(None));
    assert_eq!(store.receive_fragment(frag(7, 1, 0, 3, b"d"), other, 0), Ok(None));
    assert_eq!(store.session_count(), 4);
    store.remove_session(c, 7);
    assert_eq!(store.session_count(), 2);
    assert_eq!(store.receive_fragment(frag(7, 1, 1, 3, b"x"), c, 1), Ok(None));
    assert_eq!(store.receive_fragment(frag(7, 1, 2, 3, b"y"), c, 1), Ok(None));
    assert_eq!(store.session_count(), 3);
    assert_eq!(store.receive_fragment(frag(7, 1, 0, 3, b"z"), c, 1), Ok(Some(b"zxy".to_vec())));
    assert_eq!(store.receive_fragment(frag(8, 1, 1, 3, b"m"), c, 1), Ok(None));
    assert_eq!(store.receive_fragment(frag(8, 1, 2, 3, b"n"), c, 1), Ok(Some(b"cmn".to_vec())));
}

#[test]
fn dissociate_of_an_unknown_association_changes_nothing() {
    let mut store = UdpSessionManager::new(30_000, 30_000);
    let c = client(1, 5000);
    store.remove_session(c, 9);
    assert_eq!(store.session_count(), 0);
    assert_eq!(store.receive_fragment(frag(7, 1, 0, 2, b"a"), c, 0), Ok(None));
    store.remove_session(c, 9);
    store.remove_session(client(2, 5000), 7);
    assert_eq!(store.session_count(), 1);
    assert_eq!(store.receive_fragment(frag(7, 1, 1, 2, b"b"), c, 0), Ok(Some(b"ab".to_vec())));
}

#[test]
fn expired_buffers_are_swept() {
    let mut store = UdpSessionManager::new(30_000, 30_000);
    let c = client(1, 5000);
    assert_eq!(store.receive_fragment(frag(1, 1, 0, 2, b"a"), c, 1_000), Ok(None));
    assert_eq!(store.receive_fragment(frag(1, 2, 0, 2, b"b"), c, 10_000), Ok(None));
    assert_eq!(store.receive_fragment(frag(1, 3, 0, 3, b"c"), c, 10_000), Ok(None));
    assert_eq!(store.receive_fragment(frag(1, 3, 1, 3, b"d"), c, 20_000), Ok(None));
    assert_eq!(store.cleanup_expired_sessions(31_000), Ok(()));
    assert_eq!(store.session_count(), 3);
    assert_eq!(store.cleanup_expired_sessions(31_001), Ok(()));
    assert_eq!(store.session_count(), 2);
    assert_eq!(store.cleanup_expired_sessions(40_001), Ok(()));
    assert_eq!(store.session_count(), 1);
    assert_eq!(store.receive_fragment(frag(1, 3, 2, 3, b"e"), c, 40_002), Ok(Some(b"cde".to_vec())));
    assert_eq!(store.receive_fragment(frag(1, 1, 1, 2, b"z"), c, 40_003), Ok(None));
    assert_eq!(store.cleanup_expired_sessions(u64::MAX), Ok(()));
    assert_eq!(store.session_count(), 0);
}

#[test]
fn the_oldest_buffer_makes_room() {
    let mut store = UdpSessionManager::new(30_000, 30_000);
    store.set_max_sessions(Some(3));
    let c = client(1, 5000);
    assert_eq!(store.receive_fragment(frag(1, 1, 0, 2, b"a"), c, 100), Ok(None));
    assert_eq!(store.receive_fragment(frag(1, 2, 0, 2, b"b"), c, 50), Ok(None));
    assert_eq!(store.receive_fragment(frag(1, 3, 0, 2, b"c"), c, 200), Ok(None));
    assert_eq!(store.session_count(), 3);
    assert_eq!(store.receive_fragment(frag(1, 4, 0, 2, b"d"), c, 300), Ok(None));
    assert_eq!(store.session_count(), 3);
    assert_eq!(store.receive_fragment(frag(1, 2, 1, 2, b"x"), c, 301), Ok(None));
    assert_eq!(store.session_count(), 3);
    assert_eq!(store.receive_fragment(frag(1, 3, 1, 2, b"y"), c, 302), Ok(Some(b"cy".to_vec())));
    assert_eq!(store.receive_fragment(frag(1, 4, 1, 2, b"z"), c, 303), Ok(Some(b"dz".to_vec())));
    assert_eq!(store.receive_fragment(frag(1, 1, 1, 2, b"w"), c, 304), Ok(None));
    assert_eq!(store.session_count(), 2);
}

#[test]
fn a_fragment_that_is_refused_evicts_nothing() {
    let mut store = UdpSessionManager::new(30_000, 30_000);
    store.set_max_sessions(Some(1));
    store.set_max_reassembly_bytes_per_session(Some(4));
    let c = client(1, 5000);
    assert_eq!(store.receive_fragment(frag(1, 1, 0, 2, b"a"), c, 1), Ok(None));
    assert_eq!(
        store.receive_fragment(frag(1, 2, 0, 2, b"abcde"), c, 2),
        Err(UdpError::SessionTooLarge)
    );
    assert_eq!(
        store.receive_fragment(frag(1, 3, 4, 2, b"a"), c, 3),
        Err(UdpError::InvalidFragmentId)
    );
    assert_eq!(store.receive_fragment(frag(1, 4, 0, 1, b"solo"), c, 4), Ok(Some(b"solo".to_vec())));
    assert_eq!(store.session_count(), 1);
    assert_eq!(store.receive_fragment(frag(1, 1, 1, 2, b"b"), c, 5), Ok(Some(b"ab".to_vec())));
}

#[test]
fn a_limit_below_the_count_evicts_down_to_it() {
    let mut store = UdpSessionManager::new(30_000, 30_000);
    let c = client(1, 5000);
    for pkt in 0..5u16 {
        assert_eq!(store.receive_fragment(frag(1, pkt, 0, 2, b"a"), c, pkt as u64), Ok(None));
    }
    assert_eq!(store.session_count(), 5);
    store.set_max_sessions(Some(2));
    assert_eq!(store.receive_fragment(frag(1, 9, 0, 2, b"n"), c, 10), Ok(None));
    assert_eq!(store.session_count(), 2);
    assert_eq!(store.receive_fragment(frag(1, 4, 1, 2, b"b"), c, 11), Ok(Some(b"ab".to_vec())));
    assert_eq!(store.receive_fragment(frag(1, 9, 1, 2, b"m"), c, 12), Ok(Some(b"nm".to_vec())));
    store.set_max_sessions(Some(0));
    assert_eq!(store.receive_fragment(frag(1, 1, 0, 2, b"a"), c, 13), Ok(None));
    assert_eq!(store.session_count(), 1);
    assert_eq!(store.receive_fragment(frag(1, 2, 0, 2, b"a"), c, 14), Ok(None));
    assert_eq!(store.session_count(), 1);
    assert_eq!(store.receive_fragment(frag(1, 1, 1, 2, b"b"), c, 15), Ok(None));
}
