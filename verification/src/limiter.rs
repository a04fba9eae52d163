use vstd::prelude::*;
use crate::error::RateLimiterError;
use crate::key::Pubkey;
use crate::state::{ClientRecord, ClientRecordView, Service, ServiceView};

verus! {

/// The window length as the signed number of seconds it is compared with:
/// a value above `i64::MAX` wraps to a negative one, as the cast to `i64` does.
pub open spec fn signed_window(window_secs: u64) -> int {
    if window_secs <= i64::MAX {
        window_secs as int
    } else {
        window_secs as int - 0x1_0000_0000_0000_0000
    }
}

/// The window that began at `start` is over at `now`.
pub open spec fn window_expired(now: i64, start: i64, window_secs: u64) -> bool {
    now - start >= signed_window(window_secs)
}

/// The record a client starts with on its first call.
pub open spec fn fresh_record(service_id: Seq<u8>, client: Seq<u8>, now: i64, bump: u8) -> ClientRecordView {
    ClientRecordView { service_id, client, call_count: 0, window_start: now, last_call: now, bump }
}

/// The record as the current call sees it: a new window at `now` when the old one is over.
pub open spec fn current_window(svc: ServiceView, rec: ClientRecordView, now: i64) -> ClientRecordView {
    if window_expired(now, rec.window_start, svc.window_secs) {
        ClientRecordView { call_count: 0, window_start: now, ..rec }
    } else {
        rec
    }
}

/// A call at `now`: refused once the window holds `max_calls` calls, and
/// otherwise counted, with `now` as the last call.
pub open spec fn check_call(svc: ServiceView, rec: ClientRecordView, now: i64) -> Result<ClientRecordView, RateLimiterError> {
    let cur = current_window(svc, rec, now);
    if cur.call_count >= svc.max_calls {
        Err(RateLimiterError::RateLimitExceeded)
    } else {
        Ok(ClientRecordView { call_count: (cur.call_count + 1) as u64, last_call: now, ..cur })
    }
}

/// A record after an administrator's reset at `now`.
pub open spec fn reset_record(rec: ClientRecordView, now: i64) -> ClientRecordView {
    ClientRecordView { call_count: 0, window_start: now, ..rec }
}

/// A service after an update of its limits and its state.
pub open spec fn updated_service(svc: ServiceView, max_calls: u64, window_secs: u64, active: bool) -> ServiceView {
    ServiceView { max_calls, window_secs, active, ..svc }
}

/// Whether the window that began at `start` is over at `now`, computed without overflow.
pub fn is_window_expired(now: i64, start: i64, window_secs: u64) -> (res: bool)
    ensures
        res == window_expired(now, start, window_secs),
        window_secs <= i64::MAX ==> (res <==> now - start >= window_secs),
{
    let window: i128 = if window_secs <= 0x7fff_ffff_ffff_ffffu64 {
        window_secs as i128
    } else {
        window_secs as i128 - 0x1_0000_0000_0000_0000i128
    };
    (now as i128) - (start as i128) >= window
}

/// Decides a call of `record`'s client to `svc` at `now`.
pub fn apply_check(svc: &Service, record: ClientRecord, now: i64) -> (res: Result<ClientRecord, RateLimiterError>)
    ensures
        (match res {
            Ok(r) => check_call(svc@, record@, now) == Ok::<ClientRecordView, RateLimiterError>(r@),
            Err(e) => check_call(svc@, record@, now) == Err::<ClientRecordView, RateLimiterError>(e),
        }),
{
    let mut rec = record;
    if is_window_expired(now, rec.window_start, svc.window_secs) {
        rec.call_count = 0;
        rec.window_start = now;
    }
    if rec.call_count >= svc.max_calls {
        return Err(RateLimiterError::RateLimitExceeded);
    }
    rec.call_count = rec.call_count + 1;
    rec.last_call = now;
    Ok(rec)
}

/// The record of a client's first call.
pub fn new_record(service_id: [u8; 32], client: Pubkey, now: i64, bump: u8) -> (rec: ClientRecord)
    ensures
        rec@ == fresh_record(service_id@, client@, now, bump),
{
    ClientRecord { service_id, client, call_count: 0, window_start: now, last_call: now, bump }
}

/// Resets a record's window at `now`.
pub fn apply_reset(record: ClientRecord, now: i64) -> (rec: ClientRecord)
    ensures
        rec@ == reset_record(record@, now),
{
    let mut rec = record;
    rec.call_count = 0;
    rec.window_start = now;
    rec
}

/// Sets a service's limits and state.
pub fn apply_update(svc: Service, max_calls: u64, window_secs: u64, active: bool) -> (res: Service)
    ensures
        res@ == updated_service(svc@, max_calls, window_secs, active),
        res.max_calls == max_calls,
        res.window_secs == window_secs,
        res.active == active,
        res.service_id == svc.service_id,
        res.created_at == svc.created_at,
        res.bump == svc.bump,
{
    let mut s = svc;
    s.max_calls = max_calls;
    s.window_secs = window_secs;
    s.active = active;
    s
}

// ─── Laws ────────────────────────────────────────────────────────────────────

/// A counted call leaves between 1 and `max_calls` calls in the window, marks
/// `now` as the last call, and keeps the record's service, client and bump.
pub proof fn law_counted_call_within_limit(svc: ServiceView, rec: ClientRecordView, now: i64)
    requires
        check_call(svc, rec, now) is Ok,
    ensures
        ({
            let r = check_call(svc, rec, now)->Ok_0;
            &&& 1 <= r.call_count <= svc.max_calls
            &&& r.last_call == now
            &&& r.call_count == current_window(svc, rec, now).call_count + 1
            &&& r.window_start == current_window(svc, rec, now).window_start
            &&& r.service_id == rec.service_id
            &&& r.client == rec.client
            &&& r.bump == rec.bump
        }),
{
}

/// Inside a window that already holds `max_calls` calls, a call is refused
/// with `RateLimitExceeded`.
pub proof fn law_full_window_refuses(svc: ServiceView, rec: ClientRecordView, now: i64)
    requires
        rec.call_count >= svc.max_calls,
        !window_expired(now, rec.window_start, svc.window_secs),
    ensures
        check_call(svc, rec, now) == Err::<ClientRecordView, RateLimiterError>(RateLimiterError::RateLimitExceeded),
{
}

/// Once the window is over, a call opens a new window at `now`: with a
/// non-zero limit it is counted as the first call of that window.
pub proof fn law_expired_window_restarts(svc: ServiceView, rec: ClientRecordView, now: i64)
    requires
        window_expired(now, rec.window_start, svc.window_secs),
    ensures
        svc.max_calls > 0 ==> check_call(svc, rec, now) == Ok::<ClientRecordView, RateLimiterError>(
            ClientRecordView { call_count: 1, window_start: now, last_call: now, ..rec },
        ),
        svc.max_calls == 0 ==> check_call(svc, rec, now) == Err::<ClientRecordView, RateLimiterError>(
            RateLimiterError::RateLimitExceeded,
        ),
{
}

/// After a reset, a call is counted whenever the limit is not zero.
pub proof fn law_reset_allows_call(svc: ServiceView, rec: ClientRecordView, reset_at: i64, now: i64)
    requires
        svc.max_calls > 0,
    ensures
        check_call(svc, reset_record(rec, reset_at), now) is Ok,
{
}

/// The answers to calls at the given times, each call seeing the record
/// that the counted calls before it left.
pub open spec fn answers(svc: ServiceView, rec: ClientRecordView, times: Seq<i64>) -> Seq<bool>
    decreases times.len(),
{
    if times.len() == 0 {
        Seq::empty()
    } else {
        match check_call(svc, rec, times[0]) {
            Ok(next) => seq![true] + answers(svc, next, times.drop_first()),
            Err(_) => seq![false] + answers(svc, rec, times.drop_first()),
        }
    }
}

/// Within one window, calls are counted until the window holds `max_calls`
/// calls, and every later call is refused: the `i`-th call is counted
/// exactly when `call_count + i < max_calls`.
pub proof fn law_window_admits_at_most_max_calls(svc: ServiceView, rec: ClientRecordView, times: Seq<i64>)
    requires
        forall|i: int| 0 <= i < times.len() ==> !window_expired(#[trigger] times[i], rec.window_start, svc.window_secs),
    ensures
        answers(svc, rec, times).len() == times.len(),
        forall|i: int| 0 <= i < times.len() ==> (#[trigger] answers(svc, rec, times)[i] <==> rec.call_count + i < svc.max_calls),
    decreases times.len(),
{
    if times.len() > 0 {
        let rest = times.drop_first();
        assert(forall|i: int| 0 <= i < rest.len() ==> rest[i] == times[i + 1]);
        assert(!window_expired(times[0], rec.window_start, svc.window_secs));
        match check_call(svc, rec, times[0]) {
            Ok(next) => {
                law_window_admits_at_most_max_calls(svc, next, rest);
                assert forall|i: int| 0 <= i < times.len() implies (#[trigger] answers(svc, rec, times)[i] <==> rec.call_count + i < svc.max_calls) by {
                    if i > 0 {
                        assert(answers(svc, rec, times)[i] == answers(svc, next, rest)[i - 1]);
                    }
                }
            },
            Err(_) => {
                law_window_admits_at_most_max_calls(svc, rec, rest);
                assert forall|i: int| 0 <= i < times.len() implies (#[trigger] answers(svc, rec, times)[i] <==> rec.call_count + i < svc.max_calls) by {
                    if i > 0 {
                        assert(answers(svc, rec, times)[i] == answers(svc, rec, rest)[i - 1]);
                    }
                }
            },
        }
    }
}

/// A window of at most `i64::MAX` seconds that began at `start` is over at
/// `now` exactly when `window_secs` seconds have passed: `now - start >= window_secs`.
pub proof fn law_window_length(now: i64, start: i64, window_secs: u64)
    requires
        window_secs <= i64::MAX,
    ensures
        window_expired(now, start, window_secs) <==> now - start >= window_secs,
{
}

/// A window length above `i64::MAX` is compared as the negative number that
/// its cast to `i64` gives, `window_secs - 2^64`: such a window is over at
/// `now` exactly when `now - start` reaches that number.
pub proof fn law_window_length_above_i64_max(now: i64, start: i64, window_secs: u64)
    requires
        window_secs > i64::MAX,
    ensures
        window_expired(now, start, window_secs) <==> now - start >= window_secs - 0x1_0000_0000_0000_0000,
        now >= start ==> window_expired(now, start, window_secs),
{
}

/// Inside a window (`now < window_start + window_secs`, the window at most
/// `i64::MAX` seconds), a record that already holds `max_calls` calls is
/// refused, and one that holds fewer is counted: its count grows by one and
/// its window start stays.
pub proof fn law_calls_inside_window(svc: ServiceView, rec: ClientRecordView, now: i64)
    requires
        svc.window_secs <= i64::MAX,
        now < rec.window_start + svc.window_secs,
    ensures
        rec.call_count >= svc.max_calls ==> check_call(svc, rec, now) == Err::<ClientRecordView, RateLimiterError>(
            RateLimiterError::RateLimitExceeded,
        ),
        rec.call_count < svc.max_calls ==> (check_call(svc, rec, now) matches Ok(r) && r.call_count == rec.call_count + 1
            && r.window_start == rec.window_start && r.last_call == now),
{
}

/// Once `window_secs` (at most `i64::MAX`) seconds have passed since the
/// window start, a call opens a new window at `now`: with a non-zero limit it
/// is counted as the window's first call.
pub proof fn law_calls_after_window(svc: ServiceView, rec: ClientRecordView, now: i64)
    requires
        svc.window_secs <= i64::MAX,
        now >= rec.window_start + svc.window_secs,
        svc.max_calls > 0,
    ensures
        check_call(svc, rec, now) matches Ok(r) && r.call_count == 1 && r.window_start == now && r.last_call == now,
{
}

/// An update sets exactly the requested limits and state, whatever the
/// service held before, and keeps its id, creation time and bump.
pub proof fn law_update_sets_requested(svc: ServiceView, max_calls: u64, window_secs: u64, active: bool)
    ensures
        updated_service(svc, max_calls, window_secs, active).max_calls == max_calls,
        updated_service(svc, max_calls, window_secs, active).window_secs == window_secs,
        updated_service(svc, max_calls, window_secs, active).active == active,
        updated_service(svc, max_calls, window_secs, active).service_id == svc.service_id,
        updated_service(svc, max_calls, window_secs, active).created_at == svc.created_at,
        updated_service(svc, max_calls, window_secs, active).bump == svc.bump,
{
}

} // verus!
