use iway::config::{Config, UserConfig};
use iway::net::{
    contains_ip, embedded_ipv4, is_local_addr, rewrite_local, IpAddress, SocketAddress,
};
use iway::protocol::trojan::address::Address as TrojanAddress;
use iway::protocol::tuic::address::Address;
use iway::protocol::tuic::dns_cache::{CacheLookup, CachedAddress, DnsResolver};
use iway::server::{may_be_tls, FallbackAction, FallbackHandler, ServerError, ServerStatus};

fn v4(ip: u32, port: u16) -> SocketAddress {
    SocketAddress { ip: IpAddress::V4(ip), port }
}

fn v6(ip: u128, port: u16) -> SocketAddress {
    SocketAddress { ip: IpAddress::V6(ip), port }
}

#[test]
fn loopback_is_127_or_one() {
    assert!(IpAddress::V4(0x7f00_0001).is_loopback());
    assert!(IpAddress::V4(0x7fff_ffff).is_loopback());
    assert!(!IpAddress::V4(0x7eff_ffff).is_loopback());
    assert!(!IpAddress::V4(0x8000_0000).is_loopback());
    assert!(IpAddress::V6(1).is_loopback());
    assert!(!IpAddress::V6(0).is_loopback());
    assert!(!IpAddress::V6(2).is_loopback());
    assert!(IpAddress::V4(0).is_ipv4());
    assert!(!IpAddress::V6(0).is_ipv4());
}

#[test]
fn an_ipv6_address_may_embed_an_ipv4_address() {
    assert_eq!(embedded_ipv4(0xffff_c0a8_0001), Some(0xc0a8_0001));
    assert_eq!(embedded_ipv4(0xc0a8_0001), Some(0xc0a8_0001));
    assert_eq!(embedded_ipv4(0x1_ffff_c0a8_0001), None);
    assert_eq!(embedded_ipv4(0xfffe_c0a8_0001), None);
    assert_eq!(embedded_ipv4(u128::MAX), None);
}

#[test]
fn the_addresses_of_the_host_are_local() {
    let local = [IpAddress::V4(0xc0a8_0001), IpAddress::V6(0xfe80 << 112 | 5)];
    assert!(contains_ip(&local, IpAddress::V4(0xc0a8_0001)));
    assert!(!contains_ip(&local, IpAddress::V4(0xc0a8_0002)));
    assert!(is_local_addr(&v4(0xc0a8_0001, 80), &local));
    assert!(!is_local_addr(&v4(0xc0a8_0002, 80), &local));
    assert!(is_local_addr(&v4(0x7f00_0001, 80), &[]));
    assert!(is_local_addr(&v6(1, 80), &[]));
    assert!(is_local_addr(&v6(0xfe80 << 112 | 5, 80), &local));
    assert!(is_local_addr(&v6(0xffff_c0a8_0001, 80), &local));
    assert!(!is_local_addr(&v6(0xffff_c0a8_0002, 80), &local));
    assert!(!is_local_addr(&v6(0x2001 << 112, 80), &local));
}

#[test]
fn a_local_address_becomes_loopback_with_its_port() {
    let local = [IpAddress::V4(0xc0a8_0001), IpAddress::V6(0x2001 << 112 | 1)];
    assert_eq!(rewrite_local(v4(0xc0a8_0001, 8080), &local), v4(0x7f00_0001, 8080));
    assert_eq!(rewrite_local(v4(0x7f00_0005, 22), &local), v4(0x7f00_0001, 22));
    assert_eq!(rewrite_local(v4(0x0808_0808, 53), &local), v4(0x0808_0808, 53));
    assert_eq!(rewrite_local(v6(0x2001 << 112 | 1, 443), &local), v6(1, 443));
    assert_eq!(rewrite_local(v6(0xffff_c0a8_0001, 443), &local), v6(1, 443));
    assert_eq!(rewrite_local(v6(0x2001 << 112 | 2, 443), &local), v6(0x2001 << 112 | 2, 443));
    assert_eq!(v4(1, 9).to_loopback(), v4(0x7f00_0001, 9));
    assert_eq!(v4(1, 9).ephemeral_bind(), v4(0, 0));
    assert_eq!(v6(7, 9).ephemeral_bind(), v6(0, 0));
    assert_eq!(SocketAddress::new(IpAddress::V4(3), 4), v4(3, 4));
    assert_eq!(v4(3, 4).port(), 4);
    assert!(v4(3, 4).is_ipv4());
}

#[test]
fn an_address_is_resolved_then_filtered() {
    let local = [IpAddress::V4(0xc0a8_0001)];
    let name = Address::DomainAddress("example.test".to_string(), 80);
    assert_eq!(name.to_socket_address(Some(v4(0x7f00_0001, 80)), &local), Some(v4(0x7f00_0001, 80)));
    assert_eq!(name.to_socket_address(Some(v4(0xc0a8_0001, 80)), &local), Some(v4(0x7f00_0001, 80)));
    assert_eq!(name.to_socket_address(Some(v4(0x5db8_d822, 80)), &local), Some(v4(0x5db8_d822, 80)));
    assert_eq!(name.to_socket_address(None, &local), None);
    let direct = Address::SocketAddress(v4(0xc0a8_0001, 81));
    assert_eq!(direct.to_socket_address(None, &local), Some(v4(0x7f00_0001, 81)));
    assert_eq!(direct.to_socket_address(Some(v4(1, 1)), &[]), Some(v4(0xc0a8_0001, 81)));
    assert_eq!(Address::Absent.to_socket_address(Some(v4(1, 1)), &local), None);
    let trojan = TrojanAddress::Domain("example.test".to_string(), 80);
    assert_eq!(trojan.to_socket_addrs(Some(v4(0xc0a8_0001, 80)), &local), Some(v4(0x7f00_0001, 80)));
    assert_eq!(trojan.to_socket_addrs(None, &local), None);
    assert_eq!(
        TrojanAddress::Socket(v6(9, 9)).to_socket_addrs(None, &local),
        Some(v6(9, 9))
    );
}

#[test]
fn a_cached_name_is_used_while_it_is_fresh() {
    let resolver = DnsResolver::new();
    assert_eq!(resolver.max_entries, 2000);
    assert_eq!(resolver.ttl_secs, 300);
    let entry = resolver.entry(v4(0x0808_0808, 53), 1_000);
    assert_eq!(entry, CachedAddress { addr: v4(0x0808_0808, 53), ttl: 301_000 });
    assert_eq!(resolver.lookup(Some(entry), 1_000), CacheLookup::Hit(v4(0x0808_0808, 53)));
    assert_eq!(resolver.lookup(Some(entry), 300_999), CacheLookup::Hit(v4(0x0808_0808, 53)));
    assert_eq!(resolver.lookup(Some(entry), 301_000), CacheLookup::Expired);
    assert_eq!(resolver.lookup(None, 0), CacheLookup::Miss);
    assert_eq!(resolver.resolve(None, 5), None);
    assert_eq!(resolver.resolve(Some(v4(1, 2)), 5), Some(CachedAddress { addr: v4(1, 2), ttl: 300_005 }));
    let short = DnsResolver::with_config(10, 1);
    assert_eq!(short.entry(v4(1, 2), u64::MAX - 5).ttl, u64::MAX);
    assert_eq!(DnsResolver::with_config(10, u64::MAX).entry(v4(1, 2), 0).ttl, u64::MAX);
}

#[test]
fn only_a_running_server_starts_and_stops() {
    let made = ServerStatus::new(10);
    assert_eq!(made, ServerStatus::Initializing(10));
    assert_eq!(made.start(), Err(ServerError::StillInitializing));
    assert_eq!(made.stop(20), Err(ServerError::StillInitializing));
    let running = made.initialized(30);
    assert_eq!(running, ServerStatus::Running(30));
    assert_eq!(running.start(), Ok(()));
    let stopped = running.stop(40).unwrap();
    assert_eq!(stopped, ServerStatus::Stopped(40));
    assert_eq!(stopped.start(), Err(ServerError::AlreadyStopped(40)));
    assert_eq!(stopped.stop(50), Err(ServerError::AlreadyStopped(40)));
}

#[test]
fn a_client_that_is_none_is_relayed_or_dropped() {
    let fallback = v4(0x7f00_0001, 80);
    assert_eq!(FallbackHandler::handle_fallback(Some(fallback), true), FallbackAction::Relay(fallback));
    assert_eq!(FallbackHandler::handle_fallback(Some(fallback), false), FallbackAction::Close);
    assert_eq!(FallbackHandler::handle_fallback(None, true), FallbackAction::Close);
}

#[test]
fn first_bytes_that_are_not_tls_are_a_probe() {
    assert!(may_be_tls(&[]));
    assert!(may_be_tls(&[0x47]));
    assert!(may_be_tls(&[0x16, 0x03, 0x01, 0x02, 0x00]));
    assert!(!may_be_tls(b"GET /"));
    assert!(!may_be_tls(&[0x16, 0x02]));
    assert!(!may_be_tls(&[0x17, 0x03]));
}

#[test]
fn the_default_configuration() {
    let config = Config::default();
    assert_eq!(config.server_addr(), "[::]:443");
    assert_eq!(config.cert_path(), "server.crt");
    assert_eq!(config.key_path(), "server.key");
    assert_eq!(config.udp_session_timeout, 30);
    assert_eq!(config.udp_cleanup_interval, 30);
    assert_eq!(config.udp_socket_timeout, 3);
    assert_eq!(config.udp_max_sessions, None);
    assert_eq!(config.udp_max_reassembly_bytes_per_session, None);
    assert_eq!(config.dns_cache_max_entries, 2000);
    assert_eq!(config.dns_cache_ttl, 300);
    assert!(config.users().is_empty());
    let user = UserConfig::new("id".to_string(), "secret".to_string());
    assert_eq!(user.uuid(), "id");
    assert_eq!(user.password(), "secret");
}
