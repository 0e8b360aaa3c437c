use iway::authenticate::connection::AuthenticationConnection;
use iway::authenticate::trojan::{
    constant_time_eq, hex_encode, password_hash, TrojanAuthenticationManager,
    PASSWORD_HASH_LENGTH,
};
use iway::authenticate::tuic::{
    entries_from, exporter_label, record_failure, user_entries, AuthError, FailedAttempts,
    TuicAuthenticationManager, FAILED_ATTEMPTS_WINDOW, MAX_FAILED_ATTEMPTS,
};
use iway::config::UserConfig;
use iway::net::{IpAddress, SocketAddress};
use iway::processor::tuic::command::authenticate::AuthenticateProcessor;
use iway::protocol::tuic::command::authenticate::Authenticate;
use std::cell::{Cell, RefCell};

const ALICE: u128 = 0xa1a2a3a4_b1b2_c1c2_d1d2_d3d4d5d6d7d8;
const BOB: u128 = 0x0000_0000_0000_0000_0000_0000_0000_0b0b;

struct Session {
    material: Option<[u8; 32]>,
    calls: Cell<u32>,
    label: RefCell<Vec<u8>>,
    context: RefCell<Vec<u8>>,
}

impl Session {
    fn with(material: Option<[u8; 32]>) -> Self {
        Session {
            material,
            calls: Cell::new(0),
            label: RefCell::new(Vec::new()),
            context: RefCell::new(Vec::new()),
        }
    }
}

impl AuthenticationConnection for Session {
    fn remote_address(&self) -> SocketAddress {
        SocketAddress { ip: IpAddress::V4(0x7f00_0001), port: 40000 }
    }

    fn export_keying_material(&self, label: &[u8], context: &[u8]) -> Option<[u8; 32]> {
        self.calls.set(self.calls.get() + 1);
        *self.label.borrow_mut() = label.to_vec();
        *self.context.borrow_mut() = context.to_vec();
        self.material
    }
}

fn manager() -> TuicAuthenticationManager {
    TuicAuthenticationManager::new(vec![
        (ALICE, b"wonderland".to_vec()),
        (BOB, b"builder".to_vec()),
    ])
}

#[test]
fn tokens_are_equal_when_their_bytes_are() {
    let mut token = [7u8; 32];
    let command = Authenticate::new(ALICE, token);
    assert!(command.verify_token(&token));
    token[31] ^= 1;
    assert!(!command.verify_token(&token));
    token[31] ^= 1;
    token[0] ^= 0x80;
    assert!(!command.verify_token(&token));
    assert!(!command.verify_token(&[0u8; 32]));
    assert_eq!(command.uuid(), ALICE);
}

#[test]
fn a_wiped_token_is_all_zero() {
    let mut command = Authenticate::new(ALICE, [0xabu8; 32]);
    command.zeroize();
    assert_eq!(command.token, [0u8; 32]);
    assert_eq!(command.uuid, ALICE);
    assert!(command.verify_token(&[0u8; 32]));
}

#[test]
fn the_users_table_knows_its_users() {
    let m = manager();
    assert_eq!(m.password(ALICE), Ok(b"wonderland".to_vec()));
    assert_eq!(m.password(BOB), Ok(b"builder".to_vec()));
    assert_eq!(m.password(1), Err(AuthError::UnknownUser));
    assert_eq!(m.begin(1, 0), Err(AuthError::UnknownUser));
    assert_eq!(m.begin(ALICE, 0), Ok(b"wonderland".to_vec()));
    assert_eq!(m.failed_attempts(ALICE), None);
    let twice = TuicAuthenticationManager::new(vec![(ALICE, b"old".to_vec()), (ALICE, b"new".to_vec())]);
    assert_eq!(twice.password(ALICE), Ok(b"new".to_vec()));
}

#[test]
fn a_matching_token_is_accepted_and_clears_the_record() {
    let mut m = manager();
    let right = [9u8; 32];
    let wrong = Authenticate::new(ALICE, [1u8; 32]);
    assert_eq!(m.finish(&wrong, Some(right), 100), Err(AuthError::BadToken));
    assert_eq!(
        m.failed_attempts(ALICE),
        Some(FailedAttempts { count: 1, first_failure_time: 100 })
    );
    let good = Authenticate::new(ALICE, right);
    assert_eq!(m.finish(&good, Some(right), 200), Ok(()));
    assert_eq!(m.failed_attempts(ALICE), None);
    assert_eq!(m.finish(&good, None, 300), Err(AuthError::DeriveFailed));
    assert_eq!(m.failed_attempts(ALICE), None);
}

#[test]
fn the_fifth_mismatch_shuts_the_user_out() {
    let mut m = manager();
    let wrong = Authenticate::new(ALICE, [1u8; 32]);
    for i in 0..4u64 {
        assert_eq!(m.begin(ALICE, 1000 + i), Ok(b"wonderland".to_vec()));
        assert_eq!(m.finish(&wrong, Some([2u8; 32]), 1000 + i), Err(AuthError::BadToken));
        assert!(!m.is_rate_limited(ALICE, 1000 + i));
    }
    assert_eq!(
        m.failed_attempts(ALICE),
        Some(FailedAttempts { count: 4, first_failure_time: 1000 })
    );
    assert_eq!(m.finish(&wrong, Some([2u8; 32]), 1004), Err(AuthError::BadToken));
    assert_eq!(
        m.failed_attempts(ALICE),
        Some(FailedAttempts { count: 5, first_failure_time: 1000 })
    );
    assert!(m.is_rate_limited(ALICE, 1005));
    assert_eq!(m.begin(ALICE, 1005), Err(AuthError::RateLimited));
    assert_eq!(m.begin(ALICE, 1000 + FAILED_ATTEMPTS_WINDOW), Err(AuthError::RateLimited));
    assert_eq!(m.begin(BOB, 1005), Ok(b"builder".to_vec()));
    assert_eq!(m.begin(ALICE, 1001 + FAILED_ATTEMPTS_WINDOW), Ok(b"wonderland".to_vec()));
    assert_eq!(
        m.finish(&wrong, Some([2u8; 32]), 1001 + FAILED_ATTEMPTS_WINDOW),
        Err(AuthError::BadToken)
    );
    assert_eq!(
        m.failed_attempts(ALICE),
        Some(FailedAttempts { count: 1, first_failure_time: 1001 + FAILED_ATTEMPTS_WINDOW })
    );
    assert!(!m.is_rate_limited(ALICE, 1002 + FAILED_ATTEMPTS_WINDOW));
}

#[test]
fn failures_are_counted_in_a_window_of_one_hour() {
    assert_eq!(MAX_FAILED_ATTEMPTS, 5);
    assert_eq!(FAILED_ATTEMPTS_WINDOW, 3_600_000);
    assert_eq!(record_failure(None, 7), FailedAttempts { count: 1, first_failure_time: 7 });
    let two = record_failure(Some(FailedAttempts { count: 1, first_failure_time: 7 }), 3_600_007);
    assert_eq!(two, FailedAttempts { count: 2, first_failure_time: 7 });
    let reset = record_failure(Some(two), 3_600_008);
    assert_eq!(reset, FailedAttempts { count: 1, first_failure_time: 3_600_008 });
    let back = record_failure(Some(FailedAttempts { count: 3, first_failure_time: 500 }), 10);
    assert_eq!(back, FailedAttempts { count: 4, first_failure_time: 500 });
    let full = record_failure(Some(FailedAttempts { count: u32::MAX, first_failure_time: 0 }), 1);
    assert_eq!(full.count, u32::MAX);
}

#[test]
fn the_token_is_derived_from_user_id_and_password() {
    let mut processor = AuthenticateProcessor::new(manager());
    let session = Session::with(Some([5u8; 32]));
    let command = Authenticate::new(ALICE, [5u8; 32]);
    assert_eq!(processor.verify(&command, &session, 0), Ok(true));
    assert_eq!(session.calls.get(), 1);
    assert_eq!(*session.label.borrow(), ALICE.to_be_bytes().to_vec());
    assert_eq!(*session.context.borrow(), b"wonderland".to_vec());
    assert_eq!(exporter_label(ALICE), ALICE.to_be_bytes().to_vec());
}

#[test]
fn an_unknown_user_is_refused_before_anything_is_derived() {
    let mut processor = AuthenticateProcessor::new(manager());
    let session = Session::with(Some([5u8; 32]));
    let command = Authenticate::new(42, [5u8; 32]);
    assert_eq!(processor.verify(&command, &session, 0), Err(AuthError::UnknownUser));
    assert_eq!(session.calls.get(), 0);
}

#[test]
fn a_session_that_exports_nothing_fails_the_derivation() {
    let mut processor = AuthenticateProcessor::new(manager());
    let session = Session::with(None);
    let command = Authenticate::new(ALICE, [5u8; 32]);
    assert_eq!(processor.verify(&command, &session, 0), Err(AuthError::DeriveFailed));
    assert_eq!(session.calls.get(), 1);
    assert_eq!(processor.authenticate_manager.failed_attempts(ALICE), None);
}

#[test]
fn the_sixth_attempt_is_rate_limited_without_derivation() {
    let mut processor = AuthenticateProcessor::new(manager());
    let session = Session::with(Some([5u8; 32]));
    let wrong = Authenticate::new(ALICE, [6u8; 32]);
    for i in 0..5u64 {
        assert_eq!(processor.verify(&wrong, &session, i * 60_000), Err(AuthError::BadToken));
    }
    assert_eq!(session.calls.get(), 5);
    assert_eq!(processor.verify(&wrong, &session, 300_000), Err(AuthError::RateLimited));
    assert_eq!(session.calls.get(), 5);
    let right = Authenticate::new(ALICE, [5u8; 32]);
    assert_eq!(processor.verify(&right, &session, 300_001), Err(AuthError::RateLimited));
    assert_eq!(session.calls.get(), 5);
    assert_eq!(processor.verify(&right, &session, 3_600_001), Ok(true));
    assert_eq!(session.calls.get(), 6);
    assert_eq!(processor.authenticate_manager.failed_attempts(ALICE), None);
}

#[test]
fn users_with_a_uuid_become_entries() {
    let users = vec![
        UserConfig::new("a1a2a3a4-b1b2-c1c2-d1d2-d3d4d5d6d7d8".to_string(), "wonderland".to_string()),
        UserConfig::new("not a uuid".to_string(), "x".to_string()),
        UserConfig::new("00000000000000000000000000000b0b".to_string(), "builder".to_string()),
    ];
    assert_eq!(
        user_entries(&users),
        vec![(ALICE, b"wonderland".to_vec()), (BOB, b"builder".to_vec())]
    );
    assert_eq!(user_entries(&[]), Vec::<(u128, Vec<u8>)>::new());
    assert_eq!(
        entries_from(&[None, Some(3), Some(4)], &[b"a".to_vec(), b"b".to_vec(), b"c".to_vec()]),
        vec![(3, b"b".to_vec()), (4, b"c".to_vec())]
    );
}

#[test]
fn hexadecimal_is_lower_case() {
    assert_eq!(hex_encode(&[]), Vec::<u8>::new());
    assert_eq!(hex_encode(&[0x00, 0x09, 0x0a, 0xff, 0x1f]), b"00090aff1f".to_vec());
}

#[test]
fn a_password_is_known_by_its_sha224() {
    assert_eq!(PASSWORD_HASH_LENGTH, 56);
    assert_eq!(
        password_hash(b"abc"),
        b"23097d223405d8228642a477bda255b32aadbce4bda0b3f7e36c9da7".to_vec()
    );
    assert_eq!(
        password_hash(b""),
        b"d14a028c2a3a2bc9476102bb288234c415a2b01f828ea62ac5b3e42f".to_vec()
    );
}

#[test]
fn a_hash_opens_the_server_only_if_it_is_known() {
    let m = TrojanAuthenticationManager::new(vec!["abc".to_string(), String::new()]);
    assert!(m.verify_password_hash("23097d223405d8228642a477bda255b32aadbce4bda0b3f7e36c9da7"));
    assert!(m.verify_password_hash("d14a028c2a3a2bc9476102bb288234c415a2b01f828ea62ac5b3e42f"));
    assert!(!m.verify_password_hash("23097d223405d8228642a477bda255b32aadbce4bda0b3f7e36c9da8"));
    assert!(!m.verify_password_hash("23097D223405D8228642A477BDA255B32AADBCE4BDA0B3F7E36C9DA7"));
    assert!(!m.verify_password_hash("abc"));
    assert!(!m.verify_password_hash(""));
    assert!(m.verify_hash_bytes(b"23097d223405d8228642a477bda255b32aadbce4bda0b3f7e36c9da7"));
    assert!(!TrojanAuthenticationManager::new(Vec::new()).verify_password_hash(""));
}

#[test]
fn slices_are_equal_when_length_and_bytes_are() {
    assert!(constant_time_eq(b"", b""));
    assert!(constant_time_eq(b"abc", b"abc"));
    assert!(!constant_time_eq(b"abc", b"abd"));
    assert!(!constant_time_eq(b"abc", b"bbc"));
    assert!(!constant_time_eq(b"abc", b"ab"));
    assert!(!constant_time_eq(b"", b"a"));
    assert!(!constant_time_eq(&[0x01, 0x02], &[0x02, 0x01]));
}
