use borsh::BorshSerialize;
use solana_rate_limiter::state::ClientRecord;
use solana_rate_limiter::{
    service_id_bytes, Config, IoFailure, ProgramError, Pubkey, RateLimiterError,
    RateLimiterInstruction, Service,
};

fn k(b: u8) -> Pubkey {
    Pubkey::new_from_array([b; 32])
}

#[test]
fn config_layout_matches_borsh() {
    let c = Config { authority: k(3), default_max_calls: 10, default_window_secs: 60, bump: 254 };
    let expected = ([3u8; 32], 10u64, 60u64, 254u8).try_to_vec().unwrap();
    assert_eq!(c.pack(), expected);
    assert_eq!(c.pack().len(), 49);
    let back = Config::unpack(&expected).unwrap();
    assert_eq!(back.authority.to_bytes(), [3u8; 32]);
    assert_eq!((back.default_max_calls, back.default_window_secs, back.bump), (10, 60, 254));
}

#[test]
fn service_layout_matches_borsh() {
    let s = Service { service_id: [9u8; 32], max_calls: 2, window_secs: 60, active: true, created_at: -7, bump: 1 };
    let expected = ([9u8; 32], 2u64, 60u64, true, -7i64, 1u8).try_to_vec().unwrap();
    assert_eq!(s.pack(), expected);
    let back = Service::unpack(&expected).unwrap();
    assert_eq!((back.max_calls, back.window_secs, back.active, back.created_at, back.bump), (2, 60, true, -7, 1));
}

#[test]
fn client_record_layout_matches_borsh() {
    let r = ClientRecord { service_id: [1u8; 32], client: k(2), call_count: 5, window_start: 100, last_call: -1, bump: 7 };
    let expected = ([1u8; 32], [2u8; 32], 5u64, 100i64, -1i64, 7u8).try_to_vec().unwrap();
    assert_eq!(r.pack(), expected);
    let back = ClientRecord::unpack(&expected).unwrap();
    assert_eq!((back.call_count, back.window_start, back.last_call, back.bump), (5, 100, -1, 7));
}

#[test]
fn trailing_reserved_bytes_are_ignored() {
    let c = Config { authority: k(1), default_max_calls: 1, default_window_secs: 2, bump: 3 };
    let mut data = c.pack();
    data.extend_from_slice(&[0u8; 8]);
    assert_eq!(data.len(), Config::SIZE);
    assert_eq!(Config::unpack(&data).unwrap().default_window_secs, 2);
}

#[test]
fn short_or_bad_state_is_rejected() {
    assert_eq!(Config::unpack(&[0u8; 48]).err(), Some(IoFailure::UnexpectedLength));
    assert_eq!(ClientRecord::unpack(&[1u8; 88]).err(), Some(IoFailure::UnexpectedLength));
    let mut data = vec![0u8; 58];
    data[48] = 2;
    assert_eq!(Service::unpack(&data).err(), Some(IoFailure::InvalidBool(2)));
    assert_eq!(Service::unpack(&data[..50]).err(), Some(IoFailure::InvalidBool(2)));
    data[48] = 1;
    assert_eq!(Service::unpack(&data[..57]).err(), Some(IoFailure::UnexpectedLength));
    assert!(Service::unpack(&data).unwrap().active);
}

#[test]
fn write_into_small_account_fails() {
    let c = Config { authority: k(1), default_max_calls: 1, default_window_secs: 2, bump: 3 };
    assert_eq!(c.write_into(&[0u8; 48]), Err(IoFailure::WriteZero));
    let out = c.write_into(&[5u8; 60]).unwrap();
    assert_eq!(&out[..49], &c.pack()[..]);
    assert_eq!(&out[49..], &[5u8; 11]);
}

#[test]
fn instruction_layout_matches_borsh() {
    let ix = RateLimiterInstruction::Initialize { default_max_calls: 10, default_window_secs: 60 };
    assert_eq!(ix.pack().unwrap(), (0u8, 10u64, 60u64).try_to_vec().unwrap());
    let ix = RateLimiterInstruction::RegisterService { service_id: "test-api".to_string(), max_calls: 2, window_secs: 60 };
    assert_eq!(ix.pack().unwrap(), (1u8, "test-api".to_string(), 2u64, 60u64).try_to_vec().unwrap());
    let ix = RateLimiterInstruction::CheckRateLimit { service_id: "é".to_string() };
    assert_eq!(ix.pack().unwrap(), (2u8, "é".to_string()).try_to_vec().unwrap());
    let ix = RateLimiterInstruction::ResetClient { service_id: "a".to_string(), client: k(4) };
    assert_eq!(ix.pack().unwrap(), (3u8, "a".to_string(), [4u8; 32]).try_to_vec().unwrap());
    let ix = RateLimiterInstruction::UpdateService { service_id: "a".to_string(), max_calls: 1, window_secs: 2, active: false };
    assert_eq!(ix.pack().unwrap(), (4u8, "a".to_string(), 1u64, 2u64, false).try_to_vec().unwrap());
}

#[test]
fn instruction_round_trip() {
    let ix = RateLimiterInstruction::UpdateService { service_id: "svc-1".to_string(), max_calls: 7, window_secs: 9, active: true };
    match RateLimiterInstruction::unpack(&ix.pack().unwrap()) {
        Some(RateLimiterInstruction::UpdateService { service_id, max_calls, window_secs, active }) => {
            assert_eq!((service_id.as_str(), max_calls, window_secs, active), ("svc-1", 7, 9, true));
        }
        other => panic!("{:?}", other),
    }
    match RateLimiterInstruction::unpack(&(3u8, "ü".to_string(), [8u8; 32]).try_to_vec().unwrap()) {
        Some(RateLimiterInstruction::ResetClient { service_id, client }) => {
            assert_eq!(service_id, "ü");
            assert_eq!(client.to_bytes(), [8u8; 32]);
        }
        other => panic!("{:?}", other),
    }
}

#[test]
fn instruction_rejects_bad_data() {
    assert!(RateLimiterInstruction::unpack(&[2, 2, 0, 0, 0, 0xc3, 0x28]).is_none());
    assert!(RateLimiterInstruction::unpack(&[2, 2, 0, 0, 0, b'o', b'k']).is_some());
    assert!(RateLimiterInstruction::unpack(&[2, 3, 0, 0, 0, b'o', b'k']).is_none());
    assert!(RateLimiterInstruction::unpack(&[2, 1, 0, 0, 0, b'o', b'k']).is_none());
    let mut upd = (4u8, "a".to_string(), 1u64, 2u64, true).try_to_vec().unwrap();
    let last = upd.len() - 1;
    upd[last] = 2;
    assert!(RateLimiterInstruction::unpack(&upd).is_none());
    assert!(RateLimiterInstruction::unpack(&[9]).is_none());
    assert!(RateLimiterInstruction::unpack(&[]).is_none());
}

#[test]
fn service_id_is_cut_and_padded() {
    let mut want = [0u8; 32];
    want[..3].copy_from_slice(b"api");
    assert_eq!(service_id_bytes("api"), want);
    let long = "abcdefghijklmnopqrstuvwxyz0123456789";
    assert_eq!(&service_id_bytes(long)[..], &long.as_bytes()[..32]);
    assert_eq!(service_id_bytes(""), [0u8; 32]);
}

#[test]
fn error_codes() {
    assert_eq!(ProgramError::from(RateLimiterError::RateLimitExceeded), ProgramError::Custom(0));
    assert_eq!(ProgramError::from(RateLimiterError::ServiceNotFound), ProgramError::Custom(1));
    assert_eq!(ProgramError::from(RateLimiterError::ServiceInactive), ProgramError::Custom(2));
    assert_eq!(ProgramError::from(RateLimiterError::Unauthorized), ProgramError::Custom(3));
    assert_eq!(ProgramError::from(RateLimiterError::AlreadyInitialized), ProgramError::Custom(4));
}

#[test]
fn sizes() {
    assert_eq!(Config::SIZE, 57);
    assert_eq!(Service::SIZE, 66);
    assert_eq!(ClientRecord::SIZE, 97);
}
