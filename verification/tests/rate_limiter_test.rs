use solana_program::pubkey::Pubkey as ChainKey;
use solana_rate_limiter::{
    process_instruction, resume, Account, Config, Event, Pending, ProgramError, Pubkey,
    RateLimiterInstruction, Request, Service, Step,
};
use solana_rate_limiter::state::ClientRecord;

fn key(k: &ChainKey) -> Pubkey {
    Pubkey::new_from_array(k.to_bytes())
}

fn program_id() -> ChainKey {
    "RateLim1terXXXXXXXXXXXXXXXXXXXXXXXXXXXXXXXX"
        .parse()
        .unwrap_or_else(|_| ChainKey::new_from_array([42u8; 32]))
}

fn padded(service_id: &str) -> [u8; 32] {
    let mut sid = [0u8; 32];
    let b = service_id.as_bytes();
    sid[..b.len().min(32)].copy_from_slice(&b[..b.len().min(32)]);
    sid
}

fn config_pda(program_id: &ChainKey) -> (ChainKey, u8) {
    ChainKey::find_program_address(&[b"config"], program_id)
}

fn service_pda(program_id: &ChainKey, service_id: &str) -> (ChainKey, u8) {
    ChainKey::find_program_address(&[b"service", &padded(service_id)], program_id)
}

fn client_pda(program_id: &ChainKey, service_id: &str, client: &ChainKey) -> (ChainKey, u8) {
    ChainKey::find_program_address(&[b"client", &padded(service_id), client.as_ref()], program_id)
}

/// An account owned by the program.
fn acct(k: &ChainKey, is_signer: bool, data: Vec<u8>) -> Account {
    Account { key: key(k), owner: key(&program_id()), is_signer, data }
}

fn encode_ix(ix: &RateLimiterInstruction) -> Vec<u8> {
    ix.pack().unwrap()
}

/// Runs one call to its end, answering each request as the runtime would:
/// created accounts are zero-filled, and the clock reads `now`.
fn run(program_id: &ChainKey, accounts: &mut Vec<Account>, ix: &RateLimiterInstruction, now: i64) -> Result<(), ProgramError> {
    let mut step = process_instruction(&key(program_id), accounts, &encode_ix(ix));
    loop {
        match step {
            Step::Done(Ok(w)) => {
                accounts[w.account].data = w.data;
                return Ok(());
            }
            Step::Done(Err(e)) => return Err(e),
            Step::Need(Request::Clock, pending) => step = resume(pending, Event::Clock(now)),
            Step::Need(Request::CreateAccount { account, space, .. }, pending) => {
                accounts[account].data = vec![0u8; space];
                step = resume(pending, Event::Created(accounts[account].data.clone()));
            }
        }
    }
}

struct World {
    program_id: ChainKey,
    authority: ChainKey,
    config: Vec<u8>,
    service: Vec<u8>,
}

fn init_world(service_id: &str, max_calls: u64, window_secs: u64, now: i64) -> World {
    let program_id = program_id();
    let authority = ChainKey::new_unique();
    let (cfg, _) = config_pda(&program_id);
    let (svc, _) = service_pda(&program_id, service_id);
    let mut accounts = vec![
        acct(&authority, true, vec![]),
        acct(&cfg, false, vec![]),
        acct(&solana_program::system_program::id(), false, vec![]),
    ];
    run(&program_id, &mut accounts, &RateLimiterInstruction::Initialize { default_max_calls: 10, default_window_secs: 60 }, now).unwrap();
    let config = accounts[1].data.clone();
    let mut accounts = vec![
        acct(&authority, true, vec![]),
        acct(&cfg, false, config.clone()),
        acct(&svc, false, vec![]),
        acct(&solana_program::system_program::id(), false, vec![]),
    ];
    run(
        &program_id,
        &mut accounts,
        &RateLimiterInstruction::RegisterService { service_id: service_id.to_string(), max_calls, window_secs },
        now,
    )
    .unwrap();
    World { program_id, authority, config, service: accounts[2].data.clone() }
}

fn check(w: &World, service_id: &str, caller: &ChainKey, record: &mut Vec<u8>, now: i64) -> Result<(), ProgramError> {
    let (svc, _) = service_pda(&w.program_id, service_id);
    let (rec, _) = client_pda(&w.program_id, service_id, caller);
    let mut accounts = vec![
        acct(caller, true, vec![]),
        acct(&svc, false, w.service.clone()),
        acct(&rec, false, record.clone()),
        acct(&solana_program::system_program::id(), false, vec![]),
    ];
    let r = run(&w.program_id, &mut accounts, &RateLimiterInstruction::CheckRateLimit { service_id: service_id.to_string() }, now);
    *record = accounts[2].data.clone();
    r
}

#[test]
fn test_initialize() {
    let program_id = program_id();
    let authority = ChainKey::new_unique();
    let (config_pda, bump) = config_pda(&program_id);
    let ix_data = encode_ix(&RateLimiterInstruction::Initialize { default_max_calls: 10, default_window_secs: 60 });
    let accounts = vec![
        acct(&authority, true, vec![]),
        acct(&config_pda, false, vec![]),
        acct(&solana_program::system_program::id(), false, vec![]),
    ];
    let step = process_instruction(&key(&program_id), &accounts, &ix_data);
    let pending = match step {
        Step::Need(Request::CreateAccount { payer, account, system_program, space, seeds }, pending) => {
            assert_eq!((payer, account, system_program, space), (0, 1, 2, Config::SIZE));
            assert_eq!(seeds, vec![b"config".to_vec(), vec![bump]]);
            pending
        }
        other => panic!("Initialize failed: {:?}", other),
    };
    let result = resume(pending, Event::Created(vec![0u8; Config::SIZE]));
    match result {
        Step::Done(Ok(w)) => {
            assert_eq!(w.account, 1);
            assert_eq!(w.data.len(), Config::SIZE);
            let config = Config::unpack(&w.data).unwrap();
            assert_eq!(config.authority.to_bytes(), authority.to_bytes());
            assert_eq!(config.default_max_calls, 10);
            assert_eq!(config.default_window_secs, 60);
            assert_eq!(config.bump, bump);
        }
        other => panic!("Config PDA not created: {:?}", other),
    }
}

#[test]
fn test_rate_limit_enforced() {
    let service_id = "test-api";
    let w = init_world(service_id, 2, 60, 1_000);
    let caller = ChainKey::new_unique();
    let mut record = vec![];
    for i in 0..2 {
        let r = check(&w, service_id, &caller, &mut record, 1_001 + i);
        assert!(r.is_ok(), "Call {} should succeed: {:?}", i + 1, r.err());
    }
    let result = check(&w, service_id, &caller, &mut record, 1_010);
    assert!(result.is_err(), "3rd call should be rate-limited but succeeded");
    assert_eq!(result, Err(ProgramError::Custom(0)));
}

#[test]
fn test_admin_reset() {
    let service_id = "test-api";
    let w = init_world(service_id, 1, 60, 1_000);
    let caller = ChainKey::new_unique();
    let mut record = vec![];
    check(&w, service_id, &caller, &mut record, 1_001).unwrap();
    assert_eq!(check(&w, service_id, &caller, &mut record, 1_002), Err(ProgramError::Custom(0)));

    let (svc, _) = service_pda(&w.program_id, service_id);
    let (rec, _) = client_pda(&w.program_id, service_id, &caller);
    let mut accounts = vec![
        acct(&w.authority, true, vec![]),
        acct(&config_pda(&w.program_id).0, false, w.config.clone()),
        acct(&svc, false, w.service.clone()),
        acct(&rec, false, record.clone()),
    ];
    let ix = RateLimiterInstruction::ResetClient { service_id: service_id.to_string(), client: key(&caller) };
    run(&w.program_id, &mut accounts, &ix, 1_003).unwrap();
    let reset = ClientRecord::unpack(&accounts[3].data).unwrap();
    assert_eq!(reset.call_count, 0);
    assert_eq!(reset.window_start, 1_003);
    assert_eq!(reset.last_call, 1_001);
    record = accounts[3].data.clone();
    assert_eq!(check(&w, service_id, &caller, &mut record, 1_004), Ok(()));
}

#[test]
fn window_expiry_opens_new_window() {
    let service_id = "api";
    let w = init_world(service_id, 1, 60, 0);
    let caller = ChainKey::new_unique();
    let mut record = vec![];
    check(&w, service_id, &caller, &mut record, 100).unwrap();
    assert_eq!(check(&w, service_id, &caller, &mut record, 159), Err(ProgramError::Custom(0)));
    assert_eq!(check(&w, service_id, &caller, &mut record, 160), Ok(()));
    let r = ClientRecord::unpack(&record).unwrap();
    assert_eq!((r.call_count, r.window_start, r.last_call), (1, 160, 160));
    assert_eq!(r.client.to_bytes(), caller.to_bytes());
    assert_eq!(r.service_id, padded(service_id));
}

#[test]
fn update_pauses_service() {
    let service_id = "svc";
    let mut w = init_world(service_id, 5, 60, 0);
    let (svc, _) = service_pda(&w.program_id, service_id);
    let mut accounts = vec![
        acct(&w.authority, true, vec![]),
        acct(&config_pda(&w.program_id).0, false, w.config.clone()),
        acct(&svc, false, w.service.clone()),
    ];
    let ix = RateLimiterInstruction::UpdateService { service_id: service_id.to_string(), max_calls: 7, window_secs: 30, active: false };
    run(&w.program_id, &mut accounts, &ix, 5).unwrap();
    let s = Service::unpack(&accounts[2].data).unwrap();
    assert_eq!((s.max_calls, s.window_secs, s.active, s.created_at), (7, 30, false, 0));
    w.service = accounts[2].data.clone();
    let caller = ChainKey::new_unique();
    let mut record = vec![];
    assert_eq!(check(&w, service_id, &caller, &mut record, 10), Err(ProgramError::Custom(2)));
}

#[test]
fn non_authority_is_unauthorized() {
    let service_id = "svc";
    let w = init_world(service_id, 5, 60, 0);
    let (svc, _) = service_pda(&w.program_id, service_id);
    let intruder = ChainKey::new_unique();
    let mut accounts = vec![
        acct(&intruder, true, vec![]),
        acct(&config_pda(&w.program_id).0, false, w.config.clone()),
        acct(&svc, false, w.service.clone()),
    ];
    let ix = RateLimiterInstruction::UpdateService { service_id: service_id.to_string(), max_calls: 7, window_secs: 30, active: false };
    assert_eq!(run(&w.program_id, &mut accounts, &ix, 5), Err(ProgramError::Custom(3)));
    accounts[0] = acct(&w.authority, false, vec![]);
    assert_eq!(run(&w.program_id, &mut accounts, &ix, 5), Err(ProgramError::Custom(3)));
}

#[test]
fn unsigned_caller_is_unauthorized() {
    let service_id = "svc";
    let w = init_world(service_id, 5, 60, 0);
    let (svc, _) = service_pda(&w.program_id, service_id);
    let caller = ChainKey::new_unique();
    let (rec, _) = client_pda(&w.program_id, service_id, &caller);
    let mut accounts = vec![
        acct(&caller, false, vec![]),
        acct(&svc, false, w.service.clone()),
        acct(&rec, false, vec![]),
        acct(&solana_program::system_program::id(), false, vec![]),
    ];
    let ix = RateLimiterInstruction::CheckRateLimit { service_id: service_id.to_string() };
    assert_eq!(run(&w.program_id, &mut accounts, &ix, 5), Err(ProgramError::Custom(3)));
}

#[test]
fn missing_service_is_not_found() {
    let program_id = program_id();
    let caller = ChainKey::new_unique();
    let (svc, _) = service_pda(&program_id, "none");
    let (rec, _) = client_pda(&program_id, "none", &caller);
    let accounts = vec![
        acct(&caller, true, vec![]),
        acct(&svc, false, vec![]),
        acct(&rec, false, vec![]),
        acct(&solana_program::system_program::id(), false, vec![]),
    ];
    let ix = RateLimiterInstruction::CheckRateLimit { service_id: "none".to_string() };
    match process_instruction(&key(&program_id), &accounts, &encode_ix(&ix)) {
        Step::Done(Err(e)) => assert_eq!(e, ProgramError::Custom(1)),
        other => panic!("expected ServiceNotFound, got {:?}", other),
    }
}

#[test]
fn wrong_record_address_is_invalid_argument() {
    let service_id = "svc";
    let w = init_world(service_id, 5, 60, 0);
    let (svc, _) = service_pda(&w.program_id, service_id);
    let caller = ChainKey::new_unique();
    let mut accounts = vec![
        acct(&caller, true, vec![]),
        acct(&svc, false, w.service.clone()),
        acct(&w.program_id, false, vec![]),
        acct(&solana_program::system_program::id(), false, vec![]),
    ];
    let ix = RateLimiterInstruction::CheckRateLimit { service_id: service_id.to_string() };
    assert_eq!(run(&w.program_id, &mut accounts, &ix, 5), Err(ProgramError::InvalidArgument));
}

#[test]
fn config_address_is_derived_not_program_id() {
    let program_id = program_id();
    let authority = ChainKey::new_unique();
    let mut accounts = vec![
        acct(&authority, true, vec![]),
        acct(&program_id, false, vec![]),
        acct(&solana_program::system_program::id(), false, vec![]),
    ];
    let ix = RateLimiterInstruction::Initialize { default_max_calls: 1, default_window_secs: 1 };
    assert_eq!(run(&program_id, &mut accounts, &ix, 0), Err(ProgramError::InvalidArgument));
    accounts[1] = acct(&config_pda(&program_id).0, false, vec![]);
    assert_eq!(run(&program_id, &mut accounts, &ix, 0), Ok(()));
}

#[test]
fn too_few_accounts() {
    let program_id = program_id();
    let authority = ChainKey::new_unique();
    let accounts = vec![acct(&authority, true, vec![])];
    let ix = RateLimiterInstruction::Initialize { default_max_calls: 1, default_window_secs: 1 };
    match process_instruction(&key(&program_id), &accounts, &encode_ix(&ix)) {
        Step::Done(Err(e)) => assert_eq!(e, ProgramError::NotEnoughAccountKeys),
        other => panic!("{:?}", other),
    }
}

#[test]
fn bad_instruction_data() {
    let program_id = program_id();
    for data in [vec![], vec![5u8], vec![0u8, 1, 2], vec![2u8, 1, 0, 0, 0, 0xff]] {
        match process_instruction(&key(&program_id), &vec![], &data) {
            Step::Done(Err(e)) => assert_eq!(e, ProgramError::InvalidInstructionData),
            other => panic!("{:?}", other),
        }
    }
}

#[test]
fn existing_config_is_already_initialized() {
    let program_id = program_id();
    let intruder = ChainKey::new_unique();
    let (cfg, _) = config_pda(&program_id);
    let accounts = vec![
        acct(&intruder, true, vec![]),
        acct(&cfg, false, vec![7u8; Config::SIZE]),
        acct(&solana_program::system_program::id(), false, vec![]),
    ];
    let ix = RateLimiterInstruction::Initialize { default_max_calls: 3, default_window_secs: 4 };
    match process_instruction(&key(&program_id), &accounts, &encode_ix(&ix)) {
        Step::Done(Err(e)) => assert_eq!(e, ProgramError::Custom(4)),
        other => panic!("{:?}", other),
    }
}

#[test]
fn second_initialize_keeps_authority() {
    let w = init_world("svc", 1, 60, 0);
    let intruder = ChainKey::new_unique();
    let (cfg, _) = config_pda(&w.program_id);
    let mut accounts = vec![
        acct(&intruder, true, vec![]),
        acct(&cfg, false, w.config.clone()),
        acct(&solana_program::system_program::id(), false, vec![]),
    ];
    let ix = RateLimiterInstruction::Initialize { default_max_calls: 3, default_window_secs: 4 };
    assert_eq!(run(&w.program_id, &mut accounts, &ix, 0), Err(ProgramError::Custom(4)));
    assert_eq!(accounts[1].data, w.config);
    assert_eq!(Config::unpack(&w.config).unwrap().authority.to_bytes(), w.authority.to_bytes());
}

#[test]
fn pending_register_waits_for_clock() {
    let program_id = program_id();
    let authority = ChainKey::new_unique();
    let (cfg, _) = config_pda(&program_id);
    let config = Config { authority: key(&authority), default_max_calls: 1, default_window_secs: 1, bump: 255 };
    let mut cfg_data = config.pack();
    cfg_data.extend_from_slice(&[0u8; 8]);
    let (svc, bump) = service_pda(&program_id, "x");
    let accounts = vec![
        acct(&authority, true, vec![]),
        acct(&cfg, false, cfg_data),
        acct(&svc, false, vec![1u8; Service::SIZE]),
        acct(&solana_program::system_program::id(), false, vec![]),
    ];
    let ix = RateLimiterInstruction::RegisterService { service_id: "x".to_string(), max_calls: 9, window_secs: 8 };
    match process_instruction(&key(&program_id), &accounts, &encode_ix(&ix)) {
        Step::Need(Request::Clock, p @ Pending::RegisterClock { .. }) => match resume(p, Event::Clock(-5)) {
            Step::Done(Ok(w)) => {
                let s = Service::unpack(&w.data).unwrap();
                assert_eq!((s.max_calls, s.window_secs, s.active, s.created_at, s.bump), (9, 8, true, -5, bump));
                assert_eq!(s.service_id, padded("x"));
            }
            other => panic!("{:?}", other),
        },
        other => panic!("{:?}", other),
    }
}

#[test]
fn reset_of_short_record_fails_to_read() {
    let service_id = "svc";
    let w = init_world(service_id, 5, 60, 0);
    let (svc, _) = service_pda(&w.program_id, service_id);
    let caller = ChainKey::new_unique();
    let (rec, _) = client_pda(&w.program_id, service_id, &caller);
    let mut accounts = vec![
        acct(&w.authority, true, vec![]),
        acct(&config_pda(&w.program_id).0, false, w.config.clone()),
        acct(&svc, false, w.service.clone()),
        acct(&rec, false, vec![1u8; 10]),
    ];
    let ix = RateLimiterInstruction::ResetClient { service_id: service_id.to_string(), client: key(&caller) };
    assert_eq!(
        run(&w.program_id, &mut accounts, &ix, 5),
        Err(ProgramError::BorshIoError(solana_rate_limiter::IoFailure::UnexpectedLength))
    );
}

#[test]
fn corrupt_service_flag_fails_to_read() {
    let service_id = "svc";
    let mut w = init_world(service_id, 5, 60, 0);
    w.service[48] = 2;
    let caller = ChainKey::new_unique();
    let mut record = vec![];
    assert_eq!(
        check(&w, service_id, &caller, &mut record, 1),
        Err(ProgramError::BorshIoError(solana_rate_limiter::IoFailure::InvalidBool(2)))
    );
}

#[test]
fn empty_service_id_is_rate_limited() {
    let w = init_world("", 1, 60, 0);
    let caller = ChainKey::new_unique();
    let mut record = vec![];
    assert_eq!(check(&w, "", &caller, &mut record, 1), Ok(()));
    assert_eq!(check(&w, "", &caller, &mut record, 2), Err(ProgramError::Custom(0)));
    let r = ClientRecord::unpack(&record).unwrap();
    assert_eq!((r.call_count, r.window_start), (1, 1));
}

#[test]
fn all_zero_record_account_starts_fresh() {
    let service_id = "svc";
    let w = init_world(service_id, 2, 60, 0);
    let caller = ChainKey::new_unique();
    let mut record = vec![0u8; ClientRecord::SIZE];
    assert_eq!(check(&w, service_id, &caller, &mut record, 50), Ok(()));
    let r = ClientRecord::unpack(&record).unwrap();
    assert_eq!((r.call_count, r.window_start, r.last_call), (1, 50, 50));
    assert_eq!(r.client.to_bytes(), caller.to_bytes());
}

#[test]
fn foreign_service_account_is_invalid_argument() {
    let w = init_world("cheap", 1, 60, 0);
    let generous = init_world("generous", 1000, 60, 0);
    let caller = ChainKey::new_unique();
    let (rec, _) = client_pda(&w.program_id, "cheap", &caller);
    let (generous_svc, _) = service_pda(&w.program_id, "generous");
    let mut accounts = vec![
        acct(&caller, true, vec![]),
        acct(&generous_svc, false, generous.service.clone()),
        acct(&rec, false, vec![]),
        acct(&solana_program::system_program::id(), false, vec![]),
    ];
    let ix = RateLimiterInstruction::CheckRateLimit { service_id: "cheap".to_string() };
    assert_eq!(run(&w.program_id, &mut accounts, &ix, 5), Err(ProgramError::InvalidArgument));
}

#[test]
fn service_account_of_another_owner_is_illegal() {
    let service_id = "svc";
    let w = init_world(service_id, 1, 60, 0);
    let caller = ChainKey::new_unique();
    let (svc, _) = service_pda(&w.program_id, service_id);
    let (rec, _) = client_pda(&w.program_id, service_id, &caller);
    let mut foreign = acct(&svc, false, w.service.clone());
    foreign.owner = key(&ChainKey::new_unique());
    let mut accounts = vec![
        acct(&caller, true, vec![]),
        foreign,
        acct(&rec, false, vec![]),
        acct(&solana_program::system_program::id(), false, vec![]),
    ];
    let ix = RateLimiterInstruction::CheckRateLimit { service_id: service_id.to_string() };
    assert_eq!(run(&w.program_id, &mut accounts, &ix, 5), Err(ProgramError::IllegalOwner));
}

#[test]
fn forged_config_is_refused() {
    let service_id = "svc";
    let w = init_world(service_id, 5, 60, 0);
    let (svc, _) = service_pda(&w.program_id, service_id);
    let intruder = ChainKey::new_unique();
    let forged = Config { authority: key(&intruder), default_max_calls: 1, default_window_secs: 1, bump: 0 };
    let mut forged_data = forged.pack();
    forged_data.extend_from_slice(&[0u8; 8]);
    let forged_key = ChainKey::new_unique();
    let ix = RateLimiterInstruction::UpdateService { service_id: service_id.to_string(), max_calls: 0, window_secs: 1, active: false };
    let mut accounts = vec![
        acct(&intruder, true, vec![]),
        acct(&forged_key, false, forged_data.clone()),
        acct(&svc, false, w.service.clone()),
    ];
    assert_eq!(run(&w.program_id, &mut accounts, &ix, 5), Err(ProgramError::InvalidArgument));
    let mut at_config = acct(&config_pda(&w.program_id).0, false, forged_data);
    at_config.owner = key(&intruder);
    accounts[1] = at_config;
    assert_eq!(run(&w.program_id, &mut accounts, &ix, 5), Err(ProgramError::IllegalOwner));
    assert_eq!(accounts[2].data, w.service);
}

#[test]
fn separate_clients_have_separate_windows() {
    let service_id = "test-api";
    let w = init_world(service_id, 1, 60, 0);
    let a = ChainKey::new_unique();
    let b = ChainKey::new_unique();
    let (mut ra, mut rb) = (vec![], vec![]);
    assert_eq!(check(&w, service_id, &a, &mut ra, 1), Ok(()));
    assert_eq!(check(&w, service_id, &b, &mut rb, 1), Ok(()));
    assert_eq!(check(&w, service_id, &a, &mut ra, 2), Err(ProgramError::Custom(0)));
}

#[test]
fn own_checks_answer_before_address_checks() {
    let service_id = "svc";
    let w = init_world(service_id, 5, 60, 0);
    let (svc, _) = service_pda(&w.program_id, service_id);
    let stranger = ChainKey::new_unique();
    let ix = RateLimiterInstruction::UpdateService { service_id: service_id.to_string(), max_calls: 1, window_secs: 1, active: true };
    // Config at a wrong address, signer not its authority: Unauthorized.
    let mut accounts = vec![
        acct(&stranger, true, vec![]),
        acct(&ChainKey::new_unique(), false, w.config.clone()),
        acct(&svc, false, w.service.clone()),
    ];
    assert_eq!(run(&w.program_id, &mut accounts, &ix, 5), Err(ProgramError::Custom(3)));
    // Config of another owner, wrong service address: InvalidArgument.
    let mut foreign_config = acct(&config_pda(&w.program_id).0, false, w.config.clone());
    foreign_config.owner = key(&stranger);
    let mut accounts = vec![
        acct(&w.authority, true, vec![]),
        foreign_config,
        acct(&ChainKey::new_unique(), false, w.service.clone()),
    ];
    assert_eq!(run(&w.program_id, &mut accounts, &ix, 5), Err(ProgramError::InvalidArgument));
    // Empty service account at a wrong address: ServiceNotFound.
    let caller = ChainKey::new_unique();
    let (rec, _) = client_pda(&w.program_id, service_id, &caller);
    let mut accounts = vec![
        acct(&caller, true, vec![]),
        acct(&ChainKey::new_unique(), false, vec![]),
        acct(&rec, false, vec![]),
        acct(&solana_program::system_program::id(), false, vec![]),
    ];
    let check_ix = RateLimiterInstruction::CheckRateLimit { service_id: service_id.to_string() };
    assert_eq!(run(&w.program_id, &mut accounts, &check_ix, 5), Err(ProgramError::Custom(1)));
    // Service of another owner with a wrong record address: InvalidArgument.
    let mut foreign_service = acct(&svc, false, w.service.clone());
    foreign_service.owner = key(&stranger);
    let mut accounts = vec![
        acct(&caller, true, vec![]),
        foreign_service,
        acct(&ChainKey::new_unique(), false, vec![]),
        acct(&solana_program::system_program::id(), false, vec![]),
    ];
    assert_eq!(run(&w.program_id, &mut accounts, &check_ix, 5), Err(ProgramError::InvalidArgument));
}
