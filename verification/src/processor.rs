use vstd::prelude::*;
use vstd::utf8::encode_utf8;
use crate::codec::push_all;
use crate::error::{IoFailure, ProgramError, RateLimiterError};
use crate::instruction::{decode_instruction, InstructionView, RateLimiterInstruction};
use crate::key::{derived_program_address, seeds_view, try_find_program_address, Pubkey};
use crate::limiter::{
    apply_check, apply_reset, apply_update, check_call, fresh_record, new_record, reset_record,
    updated_service,
};
use crate::state::{
    decode_client_record, decode_config, decode_service, ClientRecord, ClientRecordView, Config,
    ConfigView, Service, ServiceView,
};

verus! {

// ─── Seeds and ids ───────────────────────────────────────────────────────────

/// The seed of the config account: the bytes of `"config"`.
pub open spec fn config_seed() -> Seq<u8> {
    seq![99u8, 111u8, 110u8, 102u8, 105u8, 103u8]
}

/// The first seed of a service account: the bytes of `"service"`.
pub open spec fn service_seed() -> Seq<u8> {
    seq![115u8, 101u8, 114u8, 118u8, 105u8, 99u8, 101u8]
}

/// The first seed of a client record: the bytes of `"client"`.
pub open spec fn client_seed() -> Seq<u8> {
    seq![99u8, 108u8, 105u8, 101u8, 110u8, 116u8]
}

fn config_seed_bytes() -> (v: Vec<u8>)
    ensures
        v@ == config_seed(),
{
    let v: Vec<u8> = vec![99u8, 111u8, 110u8, 102u8, 105u8, 103u8];
    assert(v@ =~= config_seed());
    v
}

fn service_seed_bytes() -> (v: Vec<u8>)
    ensures
        v@ == service_seed(),
{
    let v: Vec<u8> = vec![115u8, 101u8, 114u8, 118u8, 105u8, 99u8, 101u8];
    assert(v@ =~= service_seed());
    v
}

fn client_seed_bytes() -> (v: Vec<u8>)
    ensures
        v@ == client_seed(),
{
    let v: Vec<u8> = vec![99u8, 108u8, 105u8, 101u8, 110u8, 116u8];
    assert(v@ =~= client_seed());
    v
}

/// A service id as 32 bytes: its first 32 bytes, padded with zeros.
pub open spec fn padded_id(id: Seq<u8>) -> Seq<u8> {
    Seq::new(32, |i: int| if i < id.len() { id[i] } else { 0u8 })
}

/// The 32-byte form of a service id: its UTF-8 bytes, cut at 32 or padded with zeros.
pub fn service_id_bytes(s: &str) -> (buf: [u8; 32])
    ensures
        buf@ == padded_id(encode_utf8(s@)),
        encode_utf8(s@).len() <= 32 ==> buf@.take(encode_utf8(s@).len() as int) == encode_utf8(s@),
        forall|i: int| encode_utf8(s@).len() <= i < 32 ==> buf@[i] == 0u8,
        encode_utf8(s@).len() >= 32 ==> buf@ == encode_utf8(s@).take(32),
{
    let b = s.as_bytes();
    let len = if b.len() < 32 { b.len() } else { 32 };
    let mut buf = [0u8; 32];
    let mut i: usize = 0;
    while i < len
        invariant
            0 <= i <= len <= 32,
            len <= b@.len(),
            len == b@.len() || len == 32,
            buf@.len() == 32,
            forall|j: int| 0 <= j < i ==> buf@[j] == b@[j],
            forall|j: int| i <= j < 32 ==> buf@[j] == 0u8,
        decreases len - i,
    {
        buf.set(i, b[i]);
        i = i + 1;
    }
    assert(buf@ =~= padded_id(b@));
    proof {
        law_padded_id(b@);
    }
    buf
}

fn one_byte(b: u8) -> (v: Vec<u8>)
    ensures
        v@ == seq![b],
{
    let v: Vec<u8> = vec![b];
    assert(v@ =~= seq![b]);
    v
}

/// Whether every byte is zero.
pub fn is_all_zero(data: &[u8]) -> (res: bool)
    ensures
        res == all_zero(data@),
{
    let mut i: usize = 0;
    while i < data.len()
        invariant
            0 <= i <= data@.len(),
            forall|j: int| 0 <= j < i ==> data@[j] == 0,
        decreases data@.len() - i,
    {
        if data[i] != 0 {
            return false;
        }
        i = i + 1;
    }
    true
}

fn copy_bytes(s: &[u8]) -> (v: Vec<u8>)
    ensures
        v@ == s@,
{
    let mut v: Vec<u8> = Vec::new();
    push_all(&mut v, s);
    assert(v@ =~= s@);
    v
}

// ─── The machine ─────────────────────────────────────────────────────────────

/// An account as one call of the program sees it.
#[derive(Clone, Debug)]
pub struct Account {
    pub key: Pubkey,
    pub owner: Pubkey,
    pub is_signer: bool,
    pub data: Vec<u8>,
}

/// The new contents of an account, to be stored when the call succeeds.
#[derive(Clone, Debug)]
pub struct AccountWrite {
    pub account: usize,
    pub data: Vec<u8>,
}

/// Outside work the program needs before it can go on.
#[derive(Clone, Debug)]
pub enum Request {
    /// Read the clock; go on with `Event::Clock` and its Unix timestamp.
    Clock,
    /// Create `account` with `space` zeroed bytes owned by the program, paid
    /// by `payer` through `system_program` and signed with `seeds` (the last
    /// seed is the bump); go on with `Event::Created` and the account's data
    /// after the call.
    CreateAccount { payer: usize, account: usize, system_program: usize, space: usize, seeds: Vec<Vec<u8>> },
}

/// What the outside work gave.
#[derive(Clone, Debug)]
pub enum Event {
    Clock(i64),
    Created(Vec<u8>),
}

/// Where a call stands while it waits for outside work.
#[derive(Clone, Debug)]
pub enum Pending {
    /// Initialize, waiting for the config account (account 1) to exist.
    InitializeCreated { config: Config },
    /// RegisterService, waiting for the service account (account 2) to exist.
    RegisterCreated { service_id: [u8; 32], max_calls: u64, window_secs: u64, bump: u8 },
    /// RegisterService, waiting for the clock; `data` is the service account's.
    RegisterClock { service_id: [u8; 32], max_calls: u64, window_secs: u64, bump: u8, data: Vec<u8> },
    /// CheckRateLimit, waiting for the clock; `derived` is the record's expected
    /// address, `service_failure` what is wrong with the service account.
    CheckClock {
        service: Service,
        caller: Pubkey,
        service_id: [u8; 32],
        record_key: Pubkey,
        record_data: Vec<u8>,
        derived: Option<(Pubkey, u8)>,
        service_failure: Option<ProgramError>,
    },
    /// CheckRateLimit, waiting for the client record (account 2) to exist.
    CheckCreated { service: Service, caller: Pubkey, service_id: [u8; 32], bump: u8, now: i64 },
    /// ResetClient, waiting for the clock; `data` is the record account's.
    ResetClock { record: ClientRecord, data: Vec<u8> },
}

/// The next thing a call does: outside work, or its end.
#[derive(Debug)]
pub enum Step {
    Need(Request, Pending),
    Done(Result<AccountWrite, ProgramError>),
}

/// A request as mathematical values.
pub enum RequestView {
    Clock,
    CreateAccount { payer: usize, account: usize, system_program: usize, space: usize, seeds: Seq<Seq<u8>> },
}

/// An event as mathematical values.
pub enum EventView {
    Clock(i64),
    Created(Seq<u8>),
}

/// A waiting call as mathematical values.
pub enum PendingView {
    InitializeCreated { config: ConfigView },
    RegisterCreated { service_id: Seq<u8>, max_calls: u64, window_secs: u64, bump: u8 },
    RegisterClock { service_id: Seq<u8>, max_calls: u64, window_secs: u64, bump: u8, data: Seq<u8> },
    CheckClock {
        service: ServiceView,
        caller: Seq<u8>,
        service_id: Seq<u8>,
        record_key: Seq<u8>,
        record_data: Seq<u8>,
        derived: Option<(Seq<u8>, u8)>,
        service_failure: Option<ProgramError>,
    },
    CheckCreated { service: ServiceView, caller: Seq<u8>, service_id: Seq<u8>, bump: u8, now: i64 },
    ResetClock { record: ClientRecordView, data: Seq<u8> },
}

/// A step as mathematical values; a finished write is the account's index and its new data.
pub enum StepView {
    Need(RequestView, PendingView),
    Done(Result<(usize, Seq<u8>), ProgramError>),
}

impl View for Request {
    type V = RequestView;

    open spec fn view(&self) -> RequestView {
        match self {
            Request::Clock => RequestView::Clock,
            Request::CreateAccount { payer, account, system_program, space, seeds } =>
                RequestView::CreateAccount {
                payer: *payer,
                account: *account,
                system_program: *system_program,
                space: *space,
                seeds: seeds_view(seeds@),
            },
        }
    }
}

impl View for Event {
    type V = EventView;

    open spec fn view(&self) -> EventView {
        match self {
            Event::Clock(now) => EventView::Clock(*now),
            Event::Created(data) => EventView::Created(data@),
        }
    }
}

/// A derived address and bump as mathematical values.
pub open spec fn found_view(found: Option<(Pubkey, u8)>) -> Option<(Seq<u8>, u8)> {
    match found {
        Some(f) => Some((f.0@, f.1)),
        None => None,
    }
}

impl View for Pending {
    type V = PendingView;

    open spec fn view(&self) -> PendingView {
        match self {
            Pending::InitializeCreated { config } => PendingView::InitializeCreated { config: config@ },
            Pending::RegisterCreated { service_id, max_calls, window_secs, bump } =>
                PendingView::RegisterCreated {
                service_id: service_id@,
                max_calls: *max_calls,
                window_secs: *window_secs,
                bump: *bump,
            },
            Pending::RegisterClock { service_id, max_calls, window_secs, bump, data } =>
                PendingView::RegisterClock {
                service_id: service_id@,
                max_calls: *max_calls,
                window_secs: *window_secs,
                bump: *bump,
                data: data@,
            },
            Pending::CheckClock { service, caller, service_id, record_key, record_data, derived, service_failure } =>
                PendingView::CheckClock {
                service: service@,
                caller: caller@,
                service_id: service_id@,
                record_key: record_key@,
                record_data: record_data@,
                derived: found_view(*derived),
                service_failure: *service_failure,
            },
            Pending::CheckCreated { service, caller, service_id, bump, now } =>
                PendingView::CheckCreated {
                service: service@,
                caller: caller@,
                service_id: service_id@,
                bump: *bump,
                now: *now,
            },
            Pending::ResetClock { record, data } => PendingView::ResetClock {
                record: record@,
                data: data@,
            },
        }
    }
}

impl View for Step {
    type V = StepView;

    open spec fn view(&self) -> StepView {
        match self {
            Step::Need(r, p) => StepView::Need(r@, p@),
            Step::Done(Ok(w)) => StepView::Done(Ok((w.account, w.data@))),
            Step::Done(Err(e)) => StepView::Done(Err(*e)),
        }
    }
}

impl PendingView {
    /// The call waits for the clock (and not for a created account).
    pub open spec fn awaits_clock(self) -> bool {
        match self {
            PendingView::RegisterClock { .. } => true,
            PendingView::CheckClock { .. } => true,
            PendingView::ResetClock { .. } => true,
            _ => false,
        }
    }
}

impl Pending {
    /// Whether this call waits for the clock (and not for a created account).
    pub fn awaits_clock(&self) -> (res: bool)
        ensures
            res == self@.awaits_clock(),
    {
        match self {
            Pending::RegisterClock { .. } => true,
            Pending::CheckClock { .. } => true,
            Pending::ResetClock { .. } => true,
            _ => false,
        }
    }
}

// ─── What each call does ─────────────────────────────────────────────────────

/// The call ends with `e`.
pub open spec fn failed(e: ProgramError) -> StepView {
    StepView::Done(Err(e))
}

/// The call ends with the rate limiter's failure `e`.
pub open spec fn refused(e: RateLimiterError) -> StepView {
    failed(ProgramError::Custom(e.spec_code()))
}

/// The call ends by storing `layout` at the start of account `account`,
/// whose data is `data`; an account too small for it fails the call.
pub open spec fn written(account: usize, layout: Seq<u8>, data: Seq<u8>) -> StepView {
    if data.len() < layout.len() {
        failed(ProgramError::BorshIoError(IoFailure::WriteZero))
    } else {
        StepView::Done(Ok((account, layout + data.skip(layout.len() as int))))
    }
}

/// The request to create account `account`, paid by account 0, with the
/// system program at `system_program`.
pub open spec fn create_request(account: usize, system_program: usize, space: usize, seeds: Seq<Seq<u8>>) -> RequestView {
    RequestView::CreateAccount { payer: 0, account, system_program, space, seeds }
}

/// Initialize: the signer becomes the authority of the config account, which
/// must be the address derived from `"config"` and must not hold data yet;
/// the account is created, then written.
pub open spec fn initialize_start(program_id: Seq<u8>, accounts: Seq<Account>, default_max_calls: u64, default_window_secs: u64) -> StepView {
    if accounts.len() < 3 {
        failed(ProgramError::NotEnoughAccountKeys)
    } else if !accounts[0].is_signer {
        refused(RateLimiterError::Unauthorized)
    } else {
        match derived_program_address(seq![config_seed()], program_id) {
            None => failed(ProgramError::InvalidSeeds),
            Some((key, bump)) => if accounts[1].key@ != key {
                failed(ProgramError::InvalidArgument)
            } else {
                let config = ConfigView {
                    authority: accounts[0].key@,
                    default_max_calls,
                    default_window_secs,
                    bump,
                };
                if accounts[1].data@.len() > 0 {
                    refused(RateLimiterError::AlreadyInitialized)
                } else {
                    StepView::Need(
                        create_request(1, 2, 57, seq![config_seed(), seq![bump]]),
                        PendingView::InitializeCreated { config },
                    )
                }
            },
        }
    }
}

/// The checks every administrator call starts with: enough accounts, a signer
/// in account 0, a config account 1 that reads and names that signer as its
/// authority. `None` when all pass.
pub open spec fn admin_failure(accounts: Seq<Account>, needed: int) -> Option<ProgramError> {
    if accounts.len() < needed {
        Some(ProgramError::NotEnoughAccountKeys)
    } else if !accounts[0].is_signer {
        Some(ProgramError::Custom(RateLimiterError::Unauthorized.spec_code()))
    } else {
        match decode_config(accounts[1].data@) {
            Err(e) => Some(ProgramError::BorshIoError(e)),
            Ok(config) => if config.authority != accounts[0].key@ {
                Some(ProgramError::Custom(RateLimiterError::Unauthorized.spec_code()))
            } else {
                None
            },
        }
    }
}

/// Whether `account` is the program's own account for `seeds`: the address
/// derived from them, owned by the program. `None` when it is.
pub open spec fn own_account_failure(program_id: Seq<u8>, seeds: Seq<Seq<u8>>, account: Account) -> Option<ProgramError> {
    match derived_program_address(seeds, program_id) {
        None => Some(ProgramError::InvalidSeeds),
        Some((key, _bump)) => if account.key@ != key {
            Some(ProgramError::InvalidArgument)
        } else if account.owner@ != program_id {
            Some(ProgramError::IllegalOwner)
        } else {
            None
        },
    }
}

/// RegisterService: the authority registers an active service at the address
/// derived from `"service"` and the padded id, creating the account when empty;
/// the config account must then be the program's own (derived from
/// `"config"`, owned by the program); the clock gives the creation time.
pub open spec fn register_start(program_id: Seq<u8>, accounts: Seq<Account>, service_id: Seq<u8>, max_calls: u64, window_secs: u64) -> StepView {
    match admin_failure(accounts, 4) {
        Some(e) => failed(e),
        None => {
            let sid = padded_id(service_id);
            match derived_program_address(seq![service_seed(), sid], program_id) {
                None => failed(ProgramError::InvalidSeeds),
                Some((key, bump)) => if accounts[2].key@ != key {
                    failed(ProgramError::InvalidArgument)
                } else if own_account_failure(program_id, seq![config_seed()], accounts[1]) is Some {
                    failed(own_account_failure(program_id, seq![config_seed()], accounts[1])->Some_0)
                } else if accounts[2].data@.len() > 0 {
                    StepView::Need(
                        RequestView::Clock,
                        PendingView::RegisterClock { service_id: sid, max_calls, window_secs, bump, data: accounts[2].data@ },
                    )
                } else {
                    StepView::Need(
                        create_request(2, 3, 66, seq![service_seed(), sid, seq![bump]]),
                        PendingView::RegisterCreated { service_id: sid, max_calls, window_secs, bump },
                    )
                },
            }
        },
    }
}

/// The service that RegisterService stores.
pub open spec fn registered_service(service_id: Seq<u8>, max_calls: u64, window_secs: u64, bump: u8, now: i64) -> ServiceView {
    ServiceView { service_id, max_calls, window_secs, active: true, created_at: now, bump }
}

/// CheckRateLimit: the signer calls a stored, active service; the clock is
/// read; then account 2 must be the record address derived from `"client"`,
/// the padded id and the caller, and account 1 the program's own service
/// account (derived from `"service"` and the padded id, owned by the program).
pub open spec fn check_start(program_id: Seq<u8>, accounts: Seq<Account>, service_id: Seq<u8>) -> StepView {
    if accounts.len() < 4 {
        failed(ProgramError::NotEnoughAccountKeys)
    } else if !accounts[0].is_signer {
        refused(RateLimiterError::Unauthorized)
    } else if accounts[1].data@.len() == 0 {
        refused(RateLimiterError::ServiceNotFound)
    } else {
        match decode_service(accounts[1].data@) {
            Err(e) => failed(ProgramError::BorshIoError(e)),
            Ok(service) => if !service.active {
                refused(RateLimiterError::ServiceInactive)
            } else {
                let sid = padded_id(service_id);
                StepView::Need(
                    RequestView::Clock,
                    PendingView::CheckClock {
                        service,
                        caller: accounts[0].key@,
                        service_id: sid,
                        record_key: accounts[2].key@,
                        record_data: accounts[2].data@,
                        derived: derived_program_address(seq![client_seed(), sid, accounts[0].key@], program_id),
                        service_failure: own_account_failure(program_id, seq![service_seed(), sid], accounts[1]),
                    },
                )
            },
        }
    }
}

/// All the bytes are zero, as in an account just created (or an empty one).
pub open spec fn all_zero(data: Seq<u8>) -> bool {
    forall|i: int| 0 <= i < data.len() ==> data[i] == 0
}

/// The record a check reads from the record account's `data`: a fresh one
/// while the account holds only zero bytes (no record was ever stored there),
/// and otherwise the stored one.
pub open spec fn stored_record(caller: Seq<u8>, service_id: Seq<u8>, bump: u8, now: i64, data: Seq<u8>) -> Result<ClientRecordView, IoFailure> {
    if all_zero(data) {
        Ok(fresh_record(service_id, caller, now, bump))
    } else {
        decode_client_record(data)
    }
}

/// The end of CheckRateLimit once the record account holds `data`: the stored
/// record (or a fresh one while the account holds only zero bytes) takes the
/// call, and the result is stored back.
pub open spec fn check_finish(service: ServiceView, caller: Seq<u8>, service_id: Seq<u8>, bump: u8, now: i64, data: Seq<u8>) -> StepView {
    match stored_record(caller, service_id, bump, now, data) {
        Err(e) => failed(ProgramError::BorshIoError(e)),
        Ok(rec) => match check_call(service, rec, now) {
            Err(e) => refused(e),
            Ok(next) => written(2, next.encode(), data),
        },
    }
}

/// ResetClient: the authority resets the record at the address derived from
/// `"client"`, the padded id and `client`, once the config account is found to
/// be the program's own; the clock gives the new window start.
pub open spec fn reset_start(program_id: Seq<u8>, accounts: Seq<Account>, service_id: Seq<u8>, client: Seq<u8>) -> StepView {
    match admin_failure(accounts, 4) {
        Some(e) => failed(e),
        None => {
            let sid = padded_id(service_id);
            match derived_program_address(seq![client_seed(), sid, client], program_id) {
                None => failed(ProgramError::InvalidSeeds),
                Some((key, _bump)) => if accounts[3].key@ != key {
                    failed(ProgramError::InvalidArgument)
                } else if own_account_failure(program_id, seq![config_seed()], accounts[1]) is Some {
                    failed(own_account_failure(program_id, seq![config_seed()], accounts[1])->Some_0)
                } else {
                    match decode_client_record(accounts[3].data@) {
                        Err(e) => failed(ProgramError::BorshIoError(e)),
                        Ok(record) => StepView::Need(
                            RequestView::Clock,
                            PendingView::ResetClock { record, data: accounts[3].data@ },
                        ),
                    }
                },
            }
        },
    }
}

/// UpdateService: the authority sets the limits and the state of the service
/// at the address derived from `"service"` and the padded id, once the config
/// account is found to be the program's own.
pub open spec fn update_start(program_id: Seq<u8>, accounts: Seq<Account>, service_id: Seq<u8>, max_calls: u64, window_secs: u64, active: bool) -> StepView {
    match admin_failure(accounts, 3) {
        Some(e) => failed(e),
        None => {
            let sid = padded_id(service_id);
            match derived_program_address(seq![service_seed(), sid], program_id) {
                None => failed(ProgramError::InvalidSeeds),
                Some((key, _bump)) => if accounts[2].key@ != key {
                    failed(ProgramError::InvalidArgument)
                } else if own_account_failure(program_id, seq![config_seed()], accounts[1]) is Some {
                    failed(own_account_failure(program_id, seq![config_seed()], accounts[1])->Some_0)
                } else {
                    match decode_service(accounts[2].data@) {
                        Err(e) => failed(ProgramError::BorshIoError(e)),
                        Ok(service) => written(
                            2,
                            updated_service(service, max_calls, window_secs, active).encode(),
                            accounts[2].data@,
                        ),
                    }
                },
            }
        },
    }
}

/// A call of the program with `data` as its instruction.
pub open spec fn process_start(program_id: Seq<u8>, accounts: Seq<Account>, data: Seq<u8>) -> StepView {
    match decode_instruction(data) {
        None => failed(ProgramError::InvalidInstructionData),
        Some(InstructionView::Initialize { default_max_calls, default_window_secs }) =>
            initialize_start(program_id, accounts, default_max_calls, default_window_secs),
        Some(InstructionView::RegisterService { service_id, max_calls, window_secs }) =>
            register_start(program_id, accounts, service_id, max_calls, window_secs),
        Some(InstructionView::CheckRateLimit { service_id }) => check_start(program_id, accounts, service_id),
        Some(InstructionView::ResetClient { service_id, client }) =>
            reset_start(program_id, accounts, service_id, client),
        Some(InstructionView::UpdateService { service_id, max_calls, window_secs, active }) =>
            update_start(program_id, accounts, service_id, max_calls, window_secs, active),
    }
}

/// How a waiting call goes on after the outside work it asked for.
pub open spec fn resume_step(pending: PendingView, event: EventView) -> StepView {
    match (pending, event) {
        (PendingView::InitializeCreated { config }, EventView::Created(data)) => written(1, config.encode(), data),
        (PendingView::RegisterCreated { service_id, max_calls, window_secs, bump }, EventView::Created(data)) =>
            StepView::Need(
                RequestView::Clock,
                PendingView::RegisterClock { service_id, max_calls, window_secs, bump, data },
            ),
        (PendingView::RegisterClock { service_id, max_calls, window_secs, bump, data }, EventView::Clock(now)) =>
            written(2, registered_service(service_id, max_calls, window_secs, bump, now).encode(), data),
        (PendingView::CheckClock { service, caller, service_id, record_key, record_data, derived, service_failure }, EventView::Clock(now)) =>
            match derived {
                None => failed(ProgramError::InvalidSeeds),
                Some((key, bump)) => if record_key != key {
                    failed(ProgramError::InvalidArgument)
                } else if service_failure is Some {
                    failed(service_failure->Some_0)
                } else if record_data.len() > 0 {
                    check_finish(service, caller, service_id, bump, now, record_data)
                } else {
                    StepView::Need(
                        create_request(2, 3, 97, seq![client_seed(), service_id, caller, seq![bump]]),
                        PendingView::CheckCreated { service, caller, service_id, bump, now },
                    )
                },
            },
        (PendingView::CheckCreated { service, caller, service_id, bump, now }, EventView::Created(data)) =>
            check_finish(service, caller, service_id, bump, now, data),
        (PendingView::ResetClock { record, data }, EventView::Clock(now)) =>
            written(3, reset_record(record, now).encode(), data),
        _ => failed(ProgramError::InvalidArgument),
    }
}

// ─── The handlers ────────────────────────────────────────────────────────────

fn fail(e: ProgramError) -> (step: Step)
    ensures
        step@ == failed(e),
{
    Step::Done(Err(e))
}

fn refuse(e: RateLimiterError) -> (step: Step)
    ensures
        step@ == refused(e),
{
    Step::Done(Err(ProgramError::from(e)))
}

/// Ends the call with the outcome of writing a layout into account `account`.
fn write_step(account: usize, written_data: Result<Vec<u8>, IoFailure>) -> (step: Step)
    ensures
        (match written_data {
            Ok(v) => step@ == StepView::Done(Ok((account, v@))),
            Err(e) => step@ == failed(ProgramError::BorshIoError(e)),
        }),
{
    match written_data {
        Ok(data) => Step::Done(Ok(AccountWrite { account, data })),
        Err(e) => Step::Done(Err(ProgramError::BorshIoError(e))),
    }
}

/// The checks that start every administrator call.
fn check_admin(accounts: &Vec<Account>, needed: usize) -> (res: Option<ProgramError>)
    requires
        needed >= 2,
    ensures
        res == admin_failure(accounts@, needed as int),
{
    if accounts.len() < needed {
        return Some(ProgramError::NotEnoughAccountKeys);
    }
    if !accounts[0].is_signer {
        return Some(ProgramError::from(RateLimiterError::Unauthorized));
    }
    match Config::unpack(accounts[1].data.as_slice()) {
        Err(e) => Some(ProgramError::BorshIoError(e)),
        Ok(config) => if !config.authority.same(&accounts[0].key) {
            Some(ProgramError::from(RateLimiterError::Unauthorized))
        } else {
            None
        },
    }
}

/// Whether `account` is the program's own account for `seeds`.
fn check_own_account(program_id: &Pubkey, seeds: &Vec<Vec<u8>>, account: &Account) -> (res: Option<ProgramError>)
    ensures
        res == own_account_failure(program_id@, seeds_view(seeds@), *account),
{
    let expected = match try_find_program_address(seeds, program_id) {
        Some(found) => found.0,
        None => return Some(ProgramError::InvalidSeeds),
    };
    if !account.key.same(&expected) {
        return Some(ProgramError::InvalidArgument);
    }
    if !account.owner.same(program_id) {
        return Some(ProgramError::IllegalOwner);
    }
    None
}

/// Whether account 1 is the program's own config account.
fn check_config_account(program_id: &Pubkey, account: &Account) -> (res: Option<ProgramError>)
    ensures
        res == own_account_failure(program_id@, seq![config_seed()], *account),
{
    let mut seeds: Vec<Vec<u8>> = Vec::new();
    seeds.push(config_seed_bytes());
    assert(seeds_view(seeds@) =~= seq![config_seed()]);
    check_own_account(program_id, &seeds, account)
}

/// Initialize the global config account.
pub fn process_initialize(program_id: &Pubkey, accounts: &Vec<Account>, default_max_calls: u64, default_window_secs: u64) -> (step: Step)
    ensures
        step@ == initialize_start(program_id@, accounts@, default_max_calls, default_window_secs),
{
    if accounts.len() < 3 {
        return fail(ProgramError::NotEnoughAccountKeys);
    }
    if !accounts[0].is_signer {
        return refuse(RateLimiterError::Unauthorized);
    }
    let mut seeds: Vec<Vec<u8>> = Vec::new();
    seeds.push(config_seed_bytes());
    assert(seeds_view(seeds@) =~= seq![config_seed()]);
    let (expected, bump) = match try_find_program_address(&seeds, program_id) {
        Some(found) => found,
        None => return fail(ProgramError::InvalidSeeds),
    };
    if !accounts[1].key.same(&expected) {
        return fail(ProgramError::InvalidArgument);
    }
    let config = Config { authority: accounts[0].key, default_max_calls, default_window_secs, bump };
    if accounts[1].data.len() > 0 {
        return refuse(RateLimiterError::AlreadyInitialized);
    }
    seeds.push(one_byte(bump));
    assert(seeds_view(seeds@) =~= seq![config_seed(), seq![bump]]);
    Step::Need(
        Request::CreateAccount { payer: 0, account: 1, system_program: 2, space: Config::SIZE, seeds },
        Pending::InitializeCreated { config },
    )
}

/// Register a new service.
pub fn process_register_service(program_id: &Pubkey, accounts: &Vec<Account>, service_id: &str, max_calls: u64, window_secs: u64) -> (step: Step)
    ensures
        step@ == register_start(program_id@, accounts@, encode_utf8(service_id@), max_calls, window_secs),
{
    if let Some(e) = check_admin(accounts, 4) {
        return fail(e);
    }
    let sid = service_id_bytes(service_id);
    let mut seeds: Vec<Vec<u8>> = Vec::new();
    seeds.push(service_seed_bytes());
    seeds.push(copy_bytes(&sid));
    assert(seeds_view(seeds@) =~= seq![service_seed(), sid@]);
    let (expected, bump) = match try_find_program_address(&seeds, program_id) {
        Some(found) => found,
        None => return fail(ProgramError::InvalidSeeds),
    };
    if !accounts[2].key.same(&expected) {
        return fail(ProgramError::InvalidArgument);
    }
    if let Some(e) = check_config_account(program_id, &accounts[1]) {
        return fail(e);
    }
    if accounts[2].data.len() > 0 {
        let data = copy_bytes(accounts[2].data.as_slice());
        return Step::Need(
            Request::Clock,
            Pending::RegisterClock { service_id: sid, max_calls, window_secs, bump, data },
        );
    }
    seeds.push(one_byte(bump));
    assert(seeds_view(seeds@) =~= seq![service_seed(), sid@, seq![bump]]);
    Step::Need(
        Request::CreateAccount { payer: 0, account: 2, system_program: 3, space: Service::SIZE, seeds },
        Pending::RegisterCreated { service_id: sid, max_calls, window_secs, bump },
    )
}

/// Check the rate limit for the caller: the part before the clock is read.
pub fn process_check_rate_limit(program_id: &Pubkey, accounts: &Vec<Account>, service_id: &str) -> (step: Step)
    ensures
        step@ == check_start(program_id@, accounts@, encode_utf8(service_id@)),
{
    if accounts.len() < 4 {
        return fail(ProgramError::NotEnoughAccountKeys);
    }
    if !accounts[0].is_signer {
        return refuse(RateLimiterError::Unauthorized);
    }
    if accounts[1].data.len() == 0 {
        return refuse(RateLimiterError::ServiceNotFound);
    }
    let service = match Service::unpack(accounts[1].data.as_slice()) {
        Ok(s) => s,
        Err(e) => return fail(ProgramError::BorshIoError(e)),
    };
    if !service.active {
        return refuse(RateLimiterError::ServiceInactive);
    }
    let sid = service_id_bytes(service_id);
    let mut service_seeds: Vec<Vec<u8>> = Vec::new();
    service_seeds.push(service_seed_bytes());
    service_seeds.push(copy_bytes(&sid));
    assert(seeds_view(service_seeds@) =~= seq![service_seed(), sid@]);
    let service_failure = check_own_account(program_id, &service_seeds, &accounts[1]);
    let caller = accounts[0].key;
    let mut seeds: Vec<Vec<u8>> = Vec::new();
    seeds.push(client_seed_bytes());
    seeds.push(copy_bytes(&sid));
    seeds.push(copy_bytes(&caller.bytes));
    assert(seeds_view(seeds@) =~= seq![client_seed(), sid@, caller@]);
    let derived = try_find_program_address(&seeds, program_id);
    let record_data = copy_bytes(accounts[2].data.as_slice());
    Step::Need(
        Request::Clock,
        Pending::CheckClock {
            service,
            caller,
            service_id: sid,
            record_key: accounts[2].key,
            record_data,
            derived,
            service_failure,
        },
    )
}

/// Admin reset of a specific client: the part before the clock is read.
pub fn process_reset_client(program_id: &Pubkey, accounts: &Vec<Account>, service_id: &str, client: &Pubkey) -> (step: Step)
    ensures
        step@ == reset_start(program_id@, accounts@, encode_utf8(service_id@), client@),
{
    if let Some(e) = check_admin(accounts, 4) {
        return fail(e);
    }
    let sid = service_id_bytes(service_id);
    let mut seeds: Vec<Vec<u8>> = Vec::new();
    seeds.push(client_seed_bytes());
    seeds.push(copy_bytes(&sid));
    seeds.push(copy_bytes(&client.bytes));
    assert(seeds_view(seeds@) =~= seq![client_seed(), sid@, client@]);
    let expected = match try_find_program_address(&seeds, program_id) {
        Some(found) => found.0,
        None => return fail(ProgramError::InvalidSeeds),
    };
    if !accounts[3].key.same(&expected) {
        return fail(ProgramError::InvalidArgument);
    }
    if let Some(e) = check_config_account(program_id, &accounts[1]) {
        return fail(e);
    }
    let record = match ClientRecord::unpack(accounts[3].data.as_slice()) {
        Ok(r) => r,
        Err(e) => return fail(ProgramError::BorshIoError(e)),
    };
    let data = copy_bytes(accounts[3].data.as_slice());
    Step::Need(Request::Clock, Pending::ResetClock { record, data })
}

/// Update a service's limits and state.
pub fn process_update_service(program_id: &Pubkey, accounts: &Vec<Account>, service_id: &str, max_calls: u64, window_secs: u64, active: bool) -> (step: Step)
    ensures
        step@ == update_start(program_id@, accounts@, encode_utf8(service_id@), max_calls, window_secs, active),
{
    if let Some(e) = check_admin(accounts, 3) {
        return fail(e);
    }
    let sid = service_id_bytes(service_id);
    let mut seeds: Vec<Vec<u8>> = Vec::new();
    seeds.push(service_seed_bytes());
    seeds.push(copy_bytes(&sid));
    assert(seeds_view(seeds@) =~= seq![service_seed(), sid@]);
    let expected = match try_find_program_address(&seeds, program_id) {
        Some(found) => found.0,
        None => return fail(ProgramError::InvalidSeeds),
    };
    if !accounts[2].key.same(&expected) {
        return fail(ProgramError::InvalidArgument);
    }
    if let Some(e) = check_config_account(program_id, &accounts[1]) {
        return fail(e);
    }
    let service = match Service::unpack(accounts[2].data.as_slice()) {
        Ok(s) => s,
        Err(e) => return fail(ProgramError::BorshIoError(e)),
    };
    let updated = apply_update(service, max_calls, window_secs, active);
    write_step(2, updated.write_into(accounts[2].data.as_slice()))
}

/// The end of CheckRateLimit once the record account holds `data`.
fn finish_check(service: &Service, caller: Pubkey, service_id: [u8; 32], bump: u8, now: i64, data: &[u8]) -> (step: Step)
    ensures
        step@ == check_finish(service@, caller@, service_id@, bump, now, data@),
{
    let record = if is_all_zero(data) {
        new_record(service_id, caller, now, bump)
    } else {
        match ClientRecord::unpack(data) {
            Ok(r) => r,
            Err(e) => return fail(ProgramError::BorshIoError(e)),
        }
    };
    match apply_check(service, record, now) {
        Err(e) => refuse(e),
        Ok(next) => write_step(2, next.write_into(data)),
    }
}

/// Starts a call of the program: reads the instruction from
/// `instruction_data` and runs its handler up to its first outside work.
pub fn process_instruction(program_id: &Pubkey, accounts: &Vec<Account>, instruction_data: &[u8]) -> (step: Step)
    ensures
        step@ == process_start(program_id@, accounts@, instruction_data@),
{
    let ix = match RateLimiterInstruction::unpack(instruction_data) {
        Some(ix) => ix,
        None => return fail(ProgramError::InvalidInstructionData),
    };
    match ix {
        RateLimiterInstruction::Initialize { default_max_calls, default_window_secs } =>
            process_initialize(program_id, accounts, default_max_calls, default_window_secs),
        RateLimiterInstruction::RegisterService { service_id, max_calls, window_secs } =>
            process_register_service(program_id, accounts, service_id.as_str(), max_calls, window_secs),
        RateLimiterInstruction::CheckRateLimit { service_id } =>
            process_check_rate_limit(program_id, accounts, service_id.as_str()),
        RateLimiterInstruction::ResetClient { service_id, client } =>
            process_reset_client(program_id, accounts, service_id.as_str(), &client),
        RateLimiterInstruction::UpdateService { service_id, max_calls, window_secs, active } =>
            process_update_service(program_id, accounts, service_id.as_str(), max_calls, window_secs, active),
    }
}

/// Goes on with a waiting call once the outside work it asked for is done.
pub fn resume(pending: Pending, event: Event) -> (step: Step)
    requires
        pending@.awaits_clock() <==> event@ is Clock,
    ensures
        step@ == resume_step(pending@, event@),
{
    match pending {
        Pending::InitializeCreated { config } => match event {
            Event::Created(data) => write_step(1, config.write_into(data.as_slice())),
            Event::Clock(_) => unreached(),
        },
        Pending::RegisterCreated { service_id, max_calls, window_secs, bump } => match event {
            Event::Created(data) => Step::Need(
                Request::Clock,
                Pending::RegisterClock { service_id, max_calls, window_secs, bump, data },
            ),
            Event::Clock(_) => unreached(),
        },
        Pending::RegisterClock { service_id, max_calls, window_secs, bump, data } => match event {
            Event::Clock(now) => {
                let service = Service { service_id, max_calls, window_secs, active: true, created_at: now, bump };
                write_step(2, service.write_into(data.as_slice()))
            },
            Event::Created(_) => unreached(),
        },
        Pending::CheckClock { service, caller, service_id, record_key, record_data, derived, service_failure } => match event {
            Event::Clock(now) => {
                let (expected, bump) = match derived {
                    Some(found) => found,
                    None => return fail(ProgramError::InvalidSeeds),
                };
                if !record_key.same(&expected) {
                    return fail(ProgramError::InvalidArgument);
                }
                if let Some(e) = service_failure {
                    return fail(e);
                }
                if record_data.len() > 0 {
                    return finish_check(&service, caller, service_id, bump, now, record_data.as_slice());
                }
                let mut seeds: Vec<Vec<u8>> = Vec::new();
                seeds.push(client_seed_bytes());
                seeds.push(copy_bytes(&service_id));
                seeds.push(copy_bytes(&caller.bytes));
                seeds.push(one_byte(bump));
                assert(seeds_view(seeds@) =~= seq![client_seed(), service_id@, caller@, seq![bump]]);
                Step::Need(
                    Request::CreateAccount { payer: 0, account: 2, system_program: 3, space: ClientRecord::SIZE, seeds },
                    Pending::CheckCreated { service, caller, service_id, bump, now },
                )
            },
            Event::Created(_) => unreached(),
        },
        Pending::CheckCreated { service, caller, service_id, bump, now } => match event {
            Event::Created(data) => finish_check(&service, caller, service_id, bump, now, data.as_slice()),
            Event::Clock(_) => unreached(),
        },
        Pending::ResetClock { record, data } => match event {
            Event::Clock(now) => {
                let reset = apply_reset(record, now);
                write_step(3, reset.write_into(data.as_slice()))
            },
            Event::Created(_) => unreached(),
        },
    }
}

// ─── Laws ────────────────────────────────────────────────────────────────────

/// A record that holds at least one call is never stored as all-zero bytes.
pub proof fn lemma_counted_record_not_all_zero(r: ClientRecordView, tail: Seq<u8>)
    requires
        r.wf(),
        r.call_count >= 1,
    ensures
        !all_zero(r.encode() + tail),
{
    let d = r.encode() + tail;
    crate::codec::lemma_u64_le(r.call_count);
    assert(d.subrange(64, 72) =~= vstd::bytes::spec_u64_to_le_bytes(r.call_count));
    if all_zero(d) {
        assert forall|i: int| 0 <= i < 8 implies vstd::bytes::spec_u64_to_le_bytes(r.call_count)[i] == 0 by {
            assert(d[64 + i] == 0);
            assert(d.subrange(64, 72)[i] == d[64 + i]);
        }
        crate::codec::lemma_u64_le_all_zero(r.call_count);
    }
}

/// A counted check stores the decided record in the record account: reading
/// the account back gives that record, and the next check at any time reads
/// it as its stored record.
pub proof fn law_check_stores_decision(service: ServiceView, caller: Seq<u8>, service_id: Seq<u8>, bump: u8, now: i64, data: Seq<u8>, later: i64)
    requires
        service_id.len() == 32,
        caller.len() == 32,
        check_finish(service, caller, service_id, bump, now, data) is Done,
        check_finish(service, caller, service_id, bump, now, data)->Done_0 is Ok,
    ensures
        ({
            let (account, written_data) = check_finish(service, caller, service_id, bump, now, data)->Done_0->Ok_0;
            let stored = stored_record(caller, service_id, bump, now, data)->Ok_0;
            let decided = check_call(service, stored, now)->Ok_0;
            &&& account == 2
            &&& written_data.len() == data.len()
            &&& decode_client_record(written_data) == Ok::<ClientRecordView, IoFailure>(decided)
            &&& stored_record(caller, service_id, bump, later, written_data) == Ok::<ClientRecordView, IoFailure>(decided)
        }),
{
    let stored = stored_record(caller, service_id, bump, now, data)->Ok_0;
    if !all_zero(data) {
        crate::state::law_client_record_decode_encode(data);
    }
    let decided = check_call(service, stored, now)->Ok_0;
    assert(decided.wf());
    crate::state::law_client_record_round_trip(decided, data.skip(89));
    lemma_counted_record_not_all_zero(decided, data.skip(89));
}

/// A check whose stored record already holds `max_calls` calls in a window
/// that is not over is refused with `RateLimitExceeded`, and nothing is written.
pub proof fn law_check_refuses_full_window(service: ServiceView, caller: Seq<u8>, service_id: Seq<u8>, bump: u8, now: i64, data: Seq<u8>)
    requires
        stored_record(caller, service_id, bump, now, data) is Ok,
        stored_record(caller, service_id, bump, now, data)->Ok_0.call_count >= service.max_calls,
        !crate::limiter::window_expired(now, stored_record(caller, service_id, bump, now, data)->Ok_0.window_start, service.window_secs),
    ensures
        check_finish(service, caller, service_id, bump, now, data) == refused(RateLimiterError::RateLimitExceeded),
{
}

/// RegisterService, ResetClient and UpdateService get past their first checks
/// only when account 0 signs and is the authority named in the program's own
/// config account: the one at the address derived from `"config"`, owned by
/// the program.
pub proof fn law_admin_requires_authority(program_id: Seq<u8>, accounts: Seq<Account>, data: Seq<u8>)
    requires
        decode_instruction(data) is Some,
        !(decode_instruction(data)->Some_0 is Initialize),
        !(decode_instruction(data)->Some_0 is CheckRateLimit),
        !(process_start(program_id, accounts, data) is Done && process_start(program_id, accounts, data)->Done_0 is Err),
    ensures
        accounts[0].is_signer,
        derived_program_address(seq![config_seed()], program_id) is Some,
        accounts[1].key@ == derived_program_address(seq![config_seed()], program_id)->Some_0.0,
        accounts[1].owner@ == program_id,
        decode_config(accounts[1].data@) is Ok,
        decode_config(accounts[1].data@)->Ok_0.authority == accounts[0].key@,
{
}

/// CheckRateLimit gets past the clock only for a signing caller, the record
/// address derived for that caller, and the service registered for the
/// requested id: the account at the address derived from `"service"` and the
/// padded id, owned by the program, holding an active service.
pub proof fn law_check_requires_signer_and_registered_service(program_id: Seq<u8>, accounts: Seq<Account>, data: Seq<u8>, now: i64)
    requires
        decode_instruction(data) is Some,
        decode_instruction(data)->Some_0 is CheckRateLimit,
        ({
            let first = process_start(program_id, accounts, data);
            let second = match first {
                StepView::Need(_, pending) => resume_step(pending, EventView::Clock(now)),
                _ => first,
            };
            !(second is Done && second->Done_0 is Err)
        }),
    ensures
        accounts[0].is_signer,
        ({
            let sid = padded_id(decode_instruction(data)->Some_0->CheckRateLimit_service_id);
            &&& derived_program_address(seq![service_seed(), sid], program_id) is Some
            &&& accounts[1].key@ == derived_program_address(seq![service_seed(), sid], program_id)->Some_0.0
            &&& derived_program_address(seq![client_seed(), sid, accounts[0].key@], program_id) is Some
            &&& accounts[2].key@ == derived_program_address(seq![client_seed(), sid, accounts[0].key@], program_id)->Some_0.0
        }),
        accounts[1].owner@ == program_id,
        decode_service(accounts[1].data@) is Ok,
        decode_service(accounts[1].data@)->Ok_0.active,
{
}

/// A call asks for an account to be created only while that account holds no
/// data; once created it holds data, so a later call does not ask again.
pub proof fn law_create_only_empty_accounts(program_id: Seq<u8>, accounts: Seq<Account>, data: Seq<u8>, now: i64)
    ensures
        process_start(program_id, accounts, data) matches StepView::Need(RequestView::CreateAccount { account, .. }, _)
            ==> account < accounts.len() && accounts[account as int].data@.len() == 0,
        ({
            let first = process_start(program_id, accounts, data);
            let second = match first {
                StepView::Need(RequestView::Clock, pending) => resume_step(pending, EventView::Clock(now)),
                _ => first,
            };
            first matches StepView::Need(RequestView::Clock, _) ==> (second matches StepView::Need(
                RequestView::CreateAccount { account, .. },
                _,
            ) ==> account == 2 && accounts[2].data@.len() == 0)
        }),
{
}

/// Initialize never succeeds on a config account that already holds data:
/// the authority stored there stays, and the call ends with `AlreadyInitialized`
/// once the signer and the address are right.
pub proof fn law_initialize_refuses_existing_config(program_id: Seq<u8>, accounts: Seq<Account>, max_calls: u64, window_secs: u64)
    requires
        accounts.len() >= 3,
        accounts[1].data@.len() > 0,
    ensures
        initialize_start(program_id, accounts, max_calls, window_secs) is Done,
        initialize_start(program_id, accounts, max_calls, window_secs)->Done_0 is Err,
        (accounts[0].is_signer && derived_program_address(seq![config_seed()], program_id) is Some
            && accounts[1].key@ == derived_program_address(seq![config_seed()], program_id)->Some_0.0)
            ==> initialize_start(program_id, accounts, max_calls, window_secs) == refused(
            RateLimiterError::AlreadyInitialized,
        ),
{
}

/// Initialize makes the signer the authority: whatever it writes reads back
/// as a config naming account 0 with the requested defaults.
pub proof fn law_initialize_names_signer(program_id: Seq<u8>, accounts: Seq<Account>, max_calls: u64, window_secs: u64, created: Seq<u8>)
    requires
        accounts.len() >= 3,
        accounts[0].key@.len() == 32,
    ensures
        ({
            let first = initialize_start(program_id, accounts, max_calls, window_secs);
            let last = match first {
                StepView::Need(_, pending) => resume_step(pending, EventView::Created(created)),
                _ => first,
            };
            last is Done && last->Done_0 is Ok ==> {
                &&& accounts[0].is_signer
                &&& last->Done_0->Ok_0.0 == 1
                &&& decode_config(last->Done_0->Ok_0.1) matches Ok(c)
                &&& c.authority == accounts[0].key@
                &&& c.default_max_calls == max_calls
                &&& c.default_window_secs == window_secs
            }
        }),
{
    let first = initialize_start(program_id, accounts, max_calls, window_secs);
    if let StepView::Need(_, pending) = first {
        if let PendingView::InitializeCreated { config } = pending {
            crate::state::law_config_round_trip(config, created.skip(49));
        }
    } else if accounts[0].is_signer {
        if let Some((key, bump)) = derived_program_address(seq![config_seed()], program_id) {
            let config = ConfigView { authority: accounts[0].key@, default_max_calls: max_calls, default_window_secs: window_secs, bump };
            crate::state::law_config_round_trip(config, accounts[1].data@.skip(49));
        }
    }
}

/// The answers of the program to checks at the given times, each check
/// reading the record account as the counted checks before it left it.
pub open spec fn check_answers(service: ServiceView, caller: Seq<u8>, service_id: Seq<u8>, bump: u8, times: Seq<i64>, data: Seq<u8>) -> Seq<bool>
    decreases times.len(),
{
    if times.len() == 0 {
        Seq::empty()
    } else {
        match check_finish(service, caller, service_id, bump, times[0], data) {
            StepView::Done(Ok((_, next_data))) => seq![true] + check_answers(
                service,
                caller,
                service_id,
                bump,
                times.drop_first(),
                next_data,
            ),
            _ => seq![false] + check_answers(service, caller, service_id, bump, times.drop_first(), data),
        }
    }
}

/// For an existing client record (an account that holds more than zero
/// bytes), the program answers a run of checks
/// exactly as the rate-limit decision does on the stored record; so within
/// one window it admits calls only while the window holds fewer than
/// `max_calls` of them, and refuses every later call.
pub proof fn law_program_admits_at_most_max_calls(service: ServiceView, caller: Seq<u8>, service_id: Seq<u8>, bump: u8, times: Seq<i64>, data: Seq<u8>)
    requires
        data.len() >= 89,
        !all_zero(data),
    ensures
        check_answers(service, caller, service_id, bump, times, data) == crate::limiter::answers(
            service,
            decode_client_record(data)->Ok_0,
            times,
        ),
        (forall|i: int| 0 <= i < times.len() ==> !crate::limiter::window_expired(#[trigger] times[i], decode_client_record(data)->Ok_0.window_start, service.window_secs))
            ==> (forall|i: int| 0 <= i < times.len() ==> (#[trigger] check_answers(service, caller, service_id, bump, times, data)[i] <==> decode_client_record(data)->Ok_0.call_count + i < service.max_calls)),
    decreases times.len(),
{
    let rec = decode_client_record(data)->Ok_0;
    if times.len() > 0 {
        let rest = times.drop_first();
        crate::state::law_client_record_decode_encode(data);
        match check_call(service, rec, times[0]) {
            Ok(next) => {
                assert(next.wf());
                crate::state::law_client_record_round_trip(next, data.skip(89));
                let next_data = next.encode() + data.skip(89);
                lemma_counted_record_not_all_zero(next, data.skip(89));
                law_program_admits_at_most_max_calls(service, caller, service_id, bump, rest, next_data);
            },
            Err(_) => {
                law_program_admits_at_most_max_calls(service, caller, service_id, bump, rest, data);
            },
        }
    }
    if forall|i: int| 0 <= i < times.len() ==> !crate::limiter::window_expired(#[trigger] times[i], rec.window_start, service.window_secs) {
        crate::limiter::law_window_admits_at_most_max_calls(service, rec, times);
    }
}

/// After an administrator's reset of a stored record, the next check of that
/// client is counted whenever the service's limit is not zero.
pub proof fn law_reset_then_check_counts(service: ServiceView, caller: Seq<u8>, service_id: Seq<u8>, bump: u8, record: ClientRecordView, reset_at: i64, now: i64, data: Seq<u8>)
    requires
        record.wf(),
        service_id.len() == 32,
        caller.len() == 32,
        data.len() >= 89,
        service.max_calls > 0,
    ensures
        ({
            let reset_data = reset_record(record, reset_at).encode() + data.skip(89);
            &&& resume_step(PendingView::ResetClock { record, data }, EventView::Clock(reset_at)) == StepView::Done(
                Ok::<(usize, Seq<u8>), ProgramError>((3usize, reset_data)),
            )
            &&& check_finish(service, caller, service_id, bump, now, reset_data) is Done
            &&& check_finish(service, caller, service_id, bump, now, reset_data)->Done_0 is Ok
        }),
{
    let reset = reset_record(record, reset_at);
    crate::state::law_client_record_round_trip(reset, data.skip(89));
    let reset_data = reset.encode() + data.skip(89);
    crate::limiter::law_reset_allows_call(service, record, reset_at, now);
    let stored = stored_record(caller, service_id, bump, now, reset_data)->Ok_0;
    assert(stored.call_count == 0);
    let next = check_call(service, stored, now)->Ok_0;
    crate::state::law_client_record_round_trip(next, Seq::empty());
    assert(reset_data.len() == data.len());
}

/// With a limit of zero the program refuses every check and never writes.
proof fn lemma_zero_limit_refuses_all(service: ServiceView, caller: Seq<u8>, service_id: Seq<u8>, bump: u8, times: Seq<i64>, data: Seq<u8>, rec: ClientRecordView)
    requires
        service.max_calls == 0,
    ensures
        check_answers(service, caller, service_id, bump, times, data) == Seq::new(times.len(), |i: int| false),
        crate::limiter::answers(service, rec, times) == Seq::new(times.len(), |i: int| false),
    decreases times.len(),
{
    if times.len() > 0 {
        lemma_zero_limit_refuses_all(service, caller, service_id, bump, times.drop_first(), data, rec);
        assert(check_answers(service, caller, service_id, bump, times, data) =~= Seq::new(times.len(), |i: int| false));
        assert(crate::limiter::answers(service, rec, times) =~= Seq::new(times.len(), |i: int| false));
    }
}

/// For a new client record (an account of at least the record's size that
/// holds only zero bytes), the first check opens a window at its own time,
/// and the program answers the run of checks as the rate-limit decision does
/// on a fresh record: within that window, exactly the first `max_calls`
/// checks are counted and every later one is refused.
pub proof fn law_program_new_record_admits_at_most_max_calls(service: ServiceView, caller: Seq<u8>, service_id: Seq<u8>, bump: u8, times: Seq<i64>, data: Seq<u8>)
    requires
        service_id.len() == 32,
        caller.len() == 32,
        data.len() >= 89,
        all_zero(data),
        times.len() > 0,
    ensures
        check_answers(service, caller, service_id, bump, times, data) == crate::limiter::answers(
            service,
            fresh_record(service_id, caller, times[0], bump),
            times,
        ),
        (forall|i: int| 0 <= i < times.len() ==> !crate::limiter::window_expired(#[trigger] times[i], times[0], service.window_secs))
            ==> (forall|i: int| 0 <= i < times.len() ==> (#[trigger] check_answers(service, caller, service_id, bump, times, data)[i] <==> i < service.max_calls)),
{
    let fresh = fresh_record(service_id, caller, times[0], bump);
    if service.max_calls == 0 {
        lemma_zero_limit_refuses_all(service, caller, service_id, bump, times, data, fresh);
    } else {
        let next = check_call(service, fresh, times[0])->Ok_0;
        assert(next.wf());
        crate::state::law_client_record_round_trip(next, data.skip(89));
        lemma_counted_record_not_all_zero(next, data.skip(89));
        let next_data = next.encode() + data.skip(89);
        law_program_admits_at_most_max_calls(service, caller, service_id, bump, times.drop_first(), next_data);
        assert(check_answers(service, caller, service_id, bump, times, data) =~= crate::limiter::answers(service, fresh, times));
    }
    if forall|i: int| 0 <= i < times.len() ==> !crate::limiter::window_expired(#[trigger] times[i], times[0], service.window_secs) {
        crate::limiter::law_window_admits_at_most_max_calls(service, fresh, times);
    }
}

/// The 32-byte form of an id of at most 32 bytes is the id followed by
/// zeros, and that of a longer id is its first 32 bytes.
pub proof fn law_padded_id(id: Seq<u8>)
    ensures
        padded_id(id).len() == 32,
        id.len() <= 32 ==> padded_id(id).take(id.len() as int) == id,
        forall|i: int| id.len() <= i < 32 ==> padded_id(id)[i] == 0u8,
        id.len() >= 32 ==> padded_id(id) == id.take(32),
{
    if id.len() <= 32 {
        assert(padded_id(id).take(id.len() as int) =~= id);
    } else {
        assert(padded_id(id) =~= id.take(32));
    }
    if id.len() == 32 {
        assert(padded_id(id) =~= id.take(32));
    }
}

/// Ids of the same length that differ in their first 32 bytes get different
/// 32-byte ids, and so different service and record accounts.
pub proof fn law_padded_id_distinguishes(a: Seq<u8>, b: Seq<u8>)
    requires
        a.len() == b.len(),
        a.take(if a.len() < 32 { a.len() as int } else { 32 }) != b.take(if b.len() < 32 { b.len() as int } else { 32 }),
    ensures
        padded_id(a) != padded_id(b),
{
    let n: int = if a.len() < 32 { a.len() as int } else { 32 };
    if padded_id(a) == padded_id(b) {
        assert(a.take(n) =~= b.take(n)) by {
            assert forall|i: int| 0 <= i < n implies a.take(n)[i] == b.take(n)[i] by {
                assert(padded_id(a)[i] == padded_id(b)[i]);
            }
        }
    }
}

/// A successful RegisterService stores, in the service account, a service with
/// exactly the requested limits, active, created at the clock time, under the
/// 32-byte form of the requested id.
pub proof fn law_register_stores_requested_service(program_id: Seq<u8>, accounts: Seq<Account>, service_id: Seq<u8>, max_calls: u64, window_secs: u64, created: Seq<u8>, now: i64)
    ensures
        ({
            let first = register_start(program_id, accounts, service_id, max_calls, window_secs);
            let second = match first {
                StepView::Need(RequestView::CreateAccount { .. }, pending) => resume_step(pending, EventView::Created(created)),
                _ => first,
            };
            let third = match second {
                StepView::Need(RequestView::Clock, pending) => resume_step(pending, EventView::Clock(now)),
                _ => second,
            };
            third matches StepView::Done(Ok((account, stored))) ==> {
                &&& account == 2
                &&& decode_service(stored) is Ok
                &&& decode_service(stored)->Ok_0.max_calls == max_calls
                &&& decode_service(stored)->Ok_0.window_secs == window_secs
                &&& decode_service(stored)->Ok_0.active
                &&& decode_service(stored)->Ok_0.created_at == now
                &&& decode_service(stored)->Ok_0.service_id == padded_id(service_id)
            }
        }),
{
    let sid = padded_id(service_id);
    if let Some((key, bump)) = derived_program_address(seq![service_seed(), sid], program_id) {
        let v = registered_service(sid, max_calls, window_secs, bump, now);
        if accounts.len() >= 4 {
            crate::state::law_service_round_trip(v, accounts[2].data@.skip(58));
        }
        crate::state::law_service_round_trip(v, created.skip(58));
    }
}

/// A successful UpdateService stores exactly the requested limits and state,
/// whatever the service held before, and keeps its id, creation time and bump.
pub proof fn law_update_stores_requested(program_id: Seq<u8>, accounts: Seq<Account>, service_id: Seq<u8>, max_calls: u64, window_secs: u64, active: bool)
    ensures
        update_start(program_id, accounts, service_id, max_calls, window_secs, active) matches StepView::Done(Ok((account, stored)))
            ==> {
            &&& account == 2
            &&& decode_service(accounts[2].data@) is Ok
            &&& decode_service(stored) is Ok
            &&& decode_service(stored)->Ok_0.max_calls == max_calls
            &&& decode_service(stored)->Ok_0.window_secs == window_secs
            &&& decode_service(stored)->Ok_0.active == active
            &&& decode_service(stored)->Ok_0.service_id == decode_service(accounts[2].data@)->Ok_0.service_id
            &&& decode_service(stored)->Ok_0.created_at == decode_service(accounts[2].data@)->Ok_0.created_at
            &&& decode_service(stored)->Ok_0.bump == decode_service(accounts[2].data@)->Ok_0.bump
        },
{
    if accounts.len() >= 3 && decode_service(accounts[2].data@) is Ok {
        crate::state::law_service_decode_encode(accounts[2].data@);
        let old = decode_service(accounts[2].data@)->Ok_0;
        crate::state::law_service_round_trip(updated_service(old, max_calls, window_secs, active), accounts[2].data@.skip(58));
    }
}

/// A successful reset stores the client's record with no calls and a window
/// starting at the clock time, keeping its service, client, last call and bump.
pub proof fn law_reset_stores_cleared_record(record: ClientRecordView, data: Seq<u8>, now: i64)
    requires
        record.wf(),
    ensures
        resume_step(PendingView::ResetClock { record, data }, EventView::Clock(now)) matches StepView::Done(Ok((account, stored)))
            ==> {
            &&& account == 3
            &&& decode_client_record(stored) is Ok
            &&& decode_client_record(stored)->Ok_0.call_count == 0
            &&& decode_client_record(stored)->Ok_0.window_start == now
            &&& decode_client_record(stored)->Ok_0.last_call == record.last_call
            &&& decode_client_record(stored)->Ok_0.service_id == record.service_id
            &&& decode_client_record(stored)->Ok_0.client == record.client
            &&& decode_client_record(stored)->Ok_0.bump == record.bump
        },
{
    crate::state::law_client_record_round_trip(reset_record(record, now), data.skip(89));
}

/// The first check of a client (its record account holds only zero bytes)
/// is counted whenever the limit is not zero, and stores a record for that
/// service and caller holding one call, with its window and last call at the
/// clock time.
pub proof fn law_first_check_creates_record(service: ServiceView, caller: Seq<u8>, service_id: Seq<u8>, bump: u8, now: i64, data: Seq<u8>)
    requires
        service_id.len() == 32,
        caller.len() == 32,
        data.len() >= 89,
        all_zero(data),
        service.max_calls > 0,
    ensures
        check_finish(service, caller, service_id, bump, now, data) matches StepView::Done(Ok((account, stored))) && {
            &&& account == 2
            &&& decode_client_record(stored) is Ok
            &&& decode_client_record(stored)->Ok_0.call_count == 1
            &&& decode_client_record(stored)->Ok_0.window_start == now
            &&& decode_client_record(stored)->Ok_0.last_call == now
            &&& decode_client_record(stored)->Ok_0.service_id == service_id
            &&& decode_client_record(stored)->Ok_0.client == caller
            &&& decode_client_record(stored)->Ok_0.bump == bump
        },
{
    let next = check_call(service, fresh_record(service_id, caller, now, bump), now)->Ok_0;
    crate::state::law_client_record_round_trip(next, data.skip(89));
}

} // verus!
