use vstd::prelude::*;
use vstd::bytes::{spec_u32_from_le_bytes, spec_u32_to_le_bytes, spec_u64_from_le_bytes, spec_u64_to_le_bytes};
use vstd::utf8::{decode_utf8_encode_utf8, encode_utf8, encode_utf8_valid_utf8, valid_utf8};
use crate::codec::{
    bool_byte, lemma_le_u32, lemma_le_u64, lemma_u32_le, lemma_u64_le, push_all, push_u32,
    push_u64, read_array32, read_u32, read_u64,
};
use crate::key::Pubkey;

verus! {

/// The requests the program answers.
#[derive(Clone, Debug)]
pub enum RateLimiterInstruction {
    /// Initialize the global config account.
    /// Accounts: authority (signer), config account (writable), system program.
    Initialize { default_max_calls: u64, default_window_secs: u64 },
    /// Register a new service.
    /// Accounts: authority (signer), config account, service account (writable), system program.
    RegisterService { service_id: String, max_calls: u64, window_secs: u64 },
    /// Check the rate limit for the caller; creates or updates its record.
    /// Accounts: client (signer), service account, client record (writable), system program.
    CheckRateLimit { service_id: String },
    /// Reset one client's record (authority only).
    /// Accounts: authority (signer), config account, service account, client record (writable).
    ResetClient { service_id: String, client: Pubkey },
    /// Change a service's limits, or pause and resume it (authority only).
    /// Accounts: authority (signer), config account, service account (writable).
    UpdateService { service_id: String, max_calls: u64, window_secs: u64, active: bool },
}

/// A request as mathematical values; a service id is its UTF-8 bytes.
pub enum InstructionView {
    Initialize { default_max_calls: u64, default_window_secs: u64 },
    RegisterService { service_id: Seq<u8>, max_calls: u64, window_secs: u64 },
    CheckRateLimit { service_id: Seq<u8> },
    ResetClient { service_id: Seq<u8>, client: Seq<u8> },
    UpdateService { service_id: Seq<u8>, max_calls: u64, window_secs: u64, active: bool },
}

impl View for RateLimiterInstruction {
    type V = InstructionView;

    open spec fn view(&self) -> InstructionView {
        match self {
            RateLimiterInstruction::Initialize { default_max_calls, default_window_secs } =>
                InstructionView::Initialize {
                default_max_calls: *default_max_calls,
                default_window_secs: *default_window_secs,
            },
            RateLimiterInstruction::RegisterService { service_id, max_calls, window_secs } =>
                InstructionView::RegisterService {
                service_id: encode_utf8(service_id@),
                max_calls: *max_calls,
                window_secs: *window_secs,
            },
            RateLimiterInstruction::CheckRateLimit { service_id } => InstructionView::CheckRateLimit {
                service_id: encode_utf8(service_id@),
            },
            RateLimiterInstruction::ResetClient { service_id, client } =>
                InstructionView::ResetClient { service_id: encode_utf8(service_id@), client: client@ },
            RateLimiterInstruction::UpdateService { service_id, max_calls, window_secs, active } =>
                InstructionView::UpdateService {
                service_id: encode_utf8(service_id@),
                max_calls: *max_calls,
                window_secs: *window_secs,
                active: *active,
            },
        }
    }
}

/// A string field: its byte length as a little-endian `u32`, then the bytes.
pub open spec fn string_field(bytes: Seq<u8>) -> Seq<u8> {
    spec_u32_to_le_bytes(bytes.len() as u32) + bytes
}

/// A string's bytes can be stored: they are UTF-8 and their length fits a `u32`.
pub open spec fn storable_string(bytes: Seq<u8>) -> bool {
    bytes.len() <= u32::MAX && valid_utf8(bytes)
}

impl InstructionView {
    /// The service id is UTF-8 whose length fits a `u32`, and a client key has 32 bytes.
    pub open spec fn wf(self) -> bool {
        match self {
            InstructionView::Initialize { .. } => true,
            InstructionView::RegisterService { service_id, .. } => storable_string(service_id),
            InstructionView::CheckRateLimit { service_id } => storable_string(service_id),
            InstructionView::ResetClient { service_id, client } => storable_string(service_id)
                && client.len() == 32,
            InstructionView::UpdateService { service_id, .. } => storable_string(service_id),
        }
    }

    /// The wire layout: a variant byte (0 to 4), then the fields in order.
    pub open spec fn encode(self) -> Seq<u8> {
        match self {
            InstructionView::Initialize { default_max_calls, default_window_secs } => seq![0u8]
                + spec_u64_to_le_bytes(default_max_calls) + spec_u64_to_le_bytes(default_window_secs),
            InstructionView::RegisterService { service_id, max_calls, window_secs } => seq![1u8]
                + string_field(service_id) + spec_u64_to_le_bytes(max_calls) + spec_u64_to_le_bytes(
                window_secs,
            ),
            InstructionView::CheckRateLimit { service_id } => seq![2u8] + string_field(service_id),
            InstructionView::ResetClient { service_id, client } => seq![3u8] + string_field(
                service_id,
            ) + client,
            InstructionView::UpdateService { service_id, max_calls, window_secs, active } =>
                seq![4u8] + string_field(service_id) + spec_u64_to_le_bytes(max_calls)
                + spec_u64_to_le_bytes(window_secs) + seq![bool_byte(active)],
        }
    }
}

/// A string field at the start of `data`: its bytes and what follows it, or
/// nothing when the bytes run out or are not UTF-8.
pub open spec fn decode_string(data: Seq<u8>) -> Option<(Seq<u8>, Seq<u8>)> {
    if data.len() < 4 {
        None
    } else {
        let n = spec_u32_from_le_bytes(data.subrange(0, 4)) as int;
        if data.len() < 4 + n {
            None
        } else if !valid_utf8(data.subrange(4, 4 + n)) {
            None
        } else {
            Some((data.subrange(4, 4 + n), data.skip(4 + n)))
        }
    }
}

/// The request that `data` holds, all of it and nothing more.
pub open spec fn decode_instruction(data: Seq<u8>) -> Option<InstructionView> {
    if data.len() == 0 {
        None
    } else {
        let rest = data.skip(1);
        if data[0] == 0 {
            if rest.len() == 16 {
                Some(
                    InstructionView::Initialize {
                        default_max_calls: spec_u64_from_le_bytes(rest.subrange(0, 8)),
                        default_window_secs: spec_u64_from_le_bytes(rest.subrange(8, 16)),
                    },
                )
            } else {
                None
            }
        } else if data[0] == 1 {
            match decode_string(rest) {
                Some((s, r)) => if r.len() == 16 {
                    Some(
                        InstructionView::RegisterService {
                            service_id: s,
                            max_calls: spec_u64_from_le_bytes(r.subrange(0, 8)),
                            window_secs: spec_u64_from_le_bytes(r.subrange(8, 16)),
                        },
                    )
                } else {
                    None
                },
                None => None,
            }
        } else if data[0] == 2 {
            match decode_string(rest) {
                Some((s, r)) => if r.len() == 0 {
                    Some(InstructionView::CheckRateLimit { service_id: s })
                } else {
                    None
                },
                None => None,
            }
        } else if data[0] == 3 {
            match decode_string(rest) {
                Some((s, r)) => if r.len() == 32 {
                    Some(InstructionView::ResetClient { service_id: s, client: r })
                } else {
                    None
                },
                None => None,
            }
        } else if data[0] == 4 {
            match decode_string(rest) {
                Some((s, r)) => if r.len() == 17 && r[16] <= 1 {
                    Some(
                        InstructionView::UpdateService {
                            service_id: s,
                            max_calls: spec_u64_from_le_bytes(r.subrange(0, 8)),
                            window_secs: spec_u64_from_le_bytes(r.subrange(8, 16)),
                            active: r[16] == 1,
                        },
                    )
                } else {
                    None
                },
                None => None,
            }
        } else {
            None
        }
    }
}

/// Calls `String::from_utf8`: a string exactly when the bytes are UTF-8,
/// and then one whose UTF-8 encoding is those bytes.
#[verifier::external_body]
fn string_from_utf8(bytes: Vec<u8>) -> (res: Option<String>)
    ensures
        res is Some <==> valid_utf8(bytes@),
        res matches Some(s) ==> encode_utf8(s@) == bytes@,
{
    String::from_utf8(bytes).ok()
}

/// Reads a string field at `at`: the string and the position after it.
fn read_string(data: &[u8], at: usize) -> (res: Option<(String, usize)>)
    requires
        at <= data@.len(),
    ensures
        (match res {
            Some(found) => decode_string(data@.skip(at as int)) == Some(
                (encode_utf8(found.0@), data@.skip(found.1 as int)),
            ) && at <= found.1 <= data@.len(),
            None => decode_string(data@.skip(at as int)) is None,
        }),
{
    let len = data.len();
    let ghost rest = data@.skip(at as int);
    if len - at < 4 {
        return None;
    }
    let n = read_u32(data, at) as usize;
    assert(data@.subrange(at as int, at + 4) =~= rest.subrange(0, 4));
    if len - at - 4 < n {
        return None;
    }
    let start = at + 4;
    let mut bytes: Vec<u8> = Vec::new();
    push_all(&mut bytes, &data[start..start + n]);
    assert(bytes@ =~= rest.subrange(4, 4 + n));
    match string_from_utf8(bytes) {
        Some(s) => {
            assert(rest.skip(4 + n) =~= data@.skip(start + n));
            Some((s, start + n))
        },
        None => None,
    }
}

/// Appends a string field for `s`.
fn push_string(out: &mut Vec<u8>, s: &String) -> (ok: bool)
    ensures
        ok == (encode_utf8(s@).len() <= u32::MAX),
        ok ==> final(out)@ == old(out)@ + string_field(encode_utf8(s@)),
        !ok ==> final(out)@ == old(out)@,
{
    let bytes = s.as_str().as_bytes();
    if bytes.len() > 0xffff_ffffusize {
        return false;
    }
    push_u32(out, bytes.len() as u32);
    push_all(out, bytes);
    proof {
        assert(out@ =~= old(out)@ + string_field(encode_utf8(s@)));
    }
    true
}

impl RateLimiterInstruction {
    /// Reads a request from the whole of `data`; `None` when `data` holds no request.
    pub fn unpack(data: &[u8]) -> (res: Option<RateLimiterInstruction>)
        ensures
            (match res {
                Some(ix) => decode_instruction(data@) == Some(ix@),
                None => decode_instruction(data@) is None,
            }),
    {
        let len = data.len();
        if len == 0 {
            return None;
        }
        let tag = data[0];
        let ghost rest = data@.skip(1);
        if tag == 0 {
            if len != 17 {
                return None;
            }
            let a = read_u64(data, 1);
            let b = read_u64(data, 9);
            assert(data@.subrange(1, 9) =~= rest.subrange(0, 8));
            assert(data@.subrange(9, 17) =~= rest.subrange(8, 16));
            return Some(RateLimiterInstruction::Initialize { default_max_calls: a, default_window_secs: b });
        }
        if tag > 4 {
            return None;
        }
        let (service_id, at) = match read_string(data, 1) {
            Some(found) => found,
            None => return None,
        };
        let ghost r = data@.skip(at as int);
        if tag == 1 {
            if len - at != 16 {
                return None;
            }
            let max_calls = read_u64(data, at);
            let window_secs = read_u64(data, at + 8);
            assert(data@.subrange(at as int, at + 8) =~= r.subrange(0, 8));
            assert(data@.subrange(at + 8, at + 16) =~= r.subrange(8, 16));
            Some(RateLimiterInstruction::RegisterService { service_id, max_calls, window_secs })
        } else if tag == 2 {
            if len != at {
                return None;
            }
            Some(RateLimiterInstruction::CheckRateLimit { service_id })
        } else if tag == 3 {
            if len - at != 32 {
                return None;
            }
            let client = Pubkey { bytes: read_array32(data, at) };
            assert(client@ =~= r);
            Some(RateLimiterInstruction::ResetClient { service_id, client })
        } else {
            if len - at != 17 {
                return None;
            }
            let flag = data[at + 16];
            if flag > 1 {
                return None;
            }
            let max_calls = read_u64(data, at);
            let window_secs = read_u64(data, at + 8);
            assert(data@.subrange(at as int, at + 8) =~= r.subrange(0, 8));
            assert(data@.subrange(at + 8, at + 16) =~= r.subrange(8, 16));
            Some(
                RateLimiterInstruction::UpdateService {
                    service_id,
                    max_calls,
                    window_secs,
                    active: flag == 1,
                },
            )
        }
    }

    /// The wire layout of this request; `None` when its service id is too
    /// long for the `u32` length field.
    pub fn pack(&self) -> (res: Option<Vec<u8>>)
        ensures
            res is Some <==> self@.wf(),
            res matches Some(bytes) ==> bytes@ == self@.encode(),
    {
        let mut out: Vec<u8> = Vec::new();
        match self {
            RateLimiterInstruction::Initialize { default_max_calls, default_window_secs } => {
                out.push(0u8);
                push_u64(&mut out, *default_max_calls);
                push_u64(&mut out, *default_window_secs);
            },
            RateLimiterInstruction::RegisterService { service_id, max_calls, window_secs } => {
                proof {
                    encode_utf8_valid_utf8(service_id@);
                }
                out.push(1u8);
                if !push_string(&mut out, service_id) {
                    return None;
                }
                push_u64(&mut out, *max_calls);
                push_u64(&mut out, *window_secs);
            },
            RateLimiterInstruction::CheckRateLimit { service_id } => {
                proof {
                    encode_utf8_valid_utf8(service_id@);
                }
                out.push(2u8);
                if !push_string(&mut out, service_id) {
                    return None;
                }
            },
            RateLimiterInstruction::ResetClient { service_id, client } => {
                proof {
                    encode_utf8_valid_utf8(service_id@);
                }
                out.push(3u8);
                if !push_string(&mut out, service_id) {
                    return None;
                }
                push_all(&mut out, &client.bytes);
            },
            RateLimiterInstruction::UpdateService { service_id, max_calls, window_secs, active } => {
                proof {
                    encode_utf8_valid_utf8(service_id@);
                }
                out.push(4u8);
                if !push_string(&mut out, service_id) {
                    return None;
                }
                push_u64(&mut out, *max_calls);
                push_u64(&mut out, *window_secs);
                out.push(if *active { 1u8 } else { 0u8 });
            },
        }
        proof {
            assert(out@ =~= self@.encode());
        }
        Some(out)
    }
}

/// Reading a string field back gives the string and what follows it.
proof fn lemma_string_round_trip(s: Seq<u8>, tail: Seq<u8>)
    requires
        storable_string(s),
    ensures
        decode_string(string_field(s) + tail) == Some((s, tail)),
{
    lemma_u32_le(s.len() as u32);
    let d = string_field(s) + tail;
    assert(d.subrange(0, 4) =~= spec_u32_to_le_bytes(s.len() as u32));
    assert(d.subrange(4, 4 + s.len() as int) =~= s);
    assert(d.skip(4 + s.len() as int) =~= tail);
}

/// Whatever reads as a string field is that field's layout, followed by the rest.
proof fn lemma_string_decode_encode(data: Seq<u8>)
    requires
        decode_string(data) is Some,
    ensures
        storable_string(decode_string(data)->Some_0.0),
        string_field(decode_string(data)->Some_0.0) + decode_string(data)->Some_0.1 == data,
{
    lemma_le_u32(data.subrange(0, 4));
    let s = decode_string(data)->Some_0.0;
    assert(s.len() == spec_u32_from_le_bytes(data.subrange(0, 4)));
    assert(string_field(s) + decode_string(data)->Some_0.1 =~= data);
}

/// Reading back a sent request gives the same request.
pub proof fn law_instruction_round_trip(v: InstructionView)
    requires
        v.wf(),
    ensures
        decode_instruction(v.encode()) == Some(v),
{
    let d = v.encode();
    let rest = d.skip(1);
    match v {
        InstructionView::Initialize { default_max_calls, default_window_secs } => {
            lemma_u64_le(default_max_calls);
            lemma_u64_le(default_window_secs);
            assert(rest.subrange(0, 8) =~= spec_u64_to_le_bytes(default_max_calls));
            assert(rest.subrange(8, 16) =~= spec_u64_to_le_bytes(default_window_secs));
        },
        InstructionView::RegisterService { service_id, max_calls, window_secs } => {
            let tail = spec_u64_to_le_bytes(max_calls) + spec_u64_to_le_bytes(window_secs);
            lemma_u64_le(max_calls);
            lemma_u64_le(window_secs);
            assert(rest =~= string_field(service_id) + tail);
            lemma_string_round_trip(service_id, tail);
            assert(tail.subrange(0, 8) =~= spec_u64_to_le_bytes(max_calls));
            assert(tail.subrange(8, 16) =~= spec_u64_to_le_bytes(window_secs));
        },
        InstructionView::CheckRateLimit { service_id } => {
            assert(rest =~= string_field(service_id) + Seq::<u8>::empty());
            lemma_string_round_trip(service_id, Seq::<u8>::empty());
        },
        InstructionView::ResetClient { service_id, client } => {
            assert(rest =~= string_field(service_id) + client);
            lemma_string_round_trip(service_id, client);
        },
        InstructionView::UpdateService { service_id, max_calls, window_secs, active } => {
            let tail = spec_u64_to_le_bytes(max_calls) + spec_u64_to_le_bytes(window_secs) + seq![
                bool_byte(active),
            ];
            lemma_u64_le(max_calls);
            lemma_u64_le(window_secs);
            assert(rest =~= string_field(service_id) + tail);
            lemma_string_round_trip(service_id, tail);
            assert(tail.subrange(0, 8) =~= spec_u64_to_le_bytes(max_calls));
            assert(tail.subrange(8, 16) =~= spec_u64_to_le_bytes(window_secs));
        },
    }
}

/// Whatever reads as a request is exactly that request's layout.
pub proof fn law_instruction_decode_encode(data: Seq<u8>)
    requires
        decode_instruction(data) is Some,
    ensures
        decode_instruction(data)->Some_0.wf(),
        decode_instruction(data)->Some_0.encode() == data,
{
    let rest = data.skip(1);
    let v = decode_instruction(data)->Some_0;
    assert(data =~= seq![data[0]] + rest);
    if data[0] == 0 {
        lemma_le_u64(rest.subrange(0, 8));
        lemma_le_u64(rest.subrange(8, 16));
        assert(v.encode() =~= data);
    } else {
        lemma_string_decode_encode(rest);
        let r = decode_string(rest)->Some_0.1;
        if data[0] == 1 {
            lemma_le_u64(r.subrange(0, 8));
            lemma_le_u64(r.subrange(8, 16));
            assert(r =~= r.subrange(0, 8) + r.subrange(8, 16));
            assert(v.encode() =~= data);
        } else if data[0] == 2 {
            assert(r =~= Seq::<u8>::empty());
            assert(v.encode() =~= data);
        } else if data[0] == 3 {
            assert(v.encode() =~= data);
        } else {
            lemma_le_u64(r.subrange(0, 8));
            lemma_le_u64(r.subrange(8, 16));
            assert(r =~= r.subrange(0, 8) + r.subrange(8, 16) + seq![bool_byte(r[16] == 1)]);
            assert(v.encode() =~= data);
        }
    }
}

/// Every request built in memory satisfies the UTF-8 part of `wf`.
pub proof fn lemma_instruction_utf8(ix: RateLimiterInstruction)
    ensures
        match ix@ {
            InstructionView::Initialize { .. } => true,
            InstructionView::RegisterService { service_id, .. } => valid_utf8(service_id),
            InstructionView::CheckRateLimit { service_id } => valid_utf8(service_id),
            InstructionView::ResetClient { service_id, .. } => valid_utf8(service_id),
            InstructionView::UpdateService { service_id, .. } => valid_utf8(service_id),
        },
{
    match ix {
        RateLimiterInstruction::Initialize { .. } => {},
        RateLimiterInstruction::RegisterService { service_id, .. } => encode_utf8_valid_utf8(service_id@),
        RateLimiterInstruction::CheckRateLimit { service_id } => encode_utf8_valid_utf8(service_id@),
        RateLimiterInstruction::ResetClient { service_id, .. } => encode_utf8_valid_utf8(service_id@),
        RateLimiterInstruction::UpdateService { service_id, .. } => encode_utf8_valid_utf8(service_id@),
    }
}

/// The wire bytes of every request are borsh's: the variant's index as one
/// byte (0 to 4), each string as its byte length (little-endian `u32`) then its
/// UTF-8 bytes, integers little-endian, a key as its 32 bytes, and a boolean as
/// the byte 1 (true) or 0 (false); and those bytes read back as the request.
pub proof fn law_wire_bytes_are_borsh(v: InstructionView)
    requires
        v.wf(),
    ensures
        v.encode() == (match v {
            InstructionView::Initialize { default_max_calls, default_window_secs } => seq![0u8]
                + spec_u64_to_le_bytes(default_max_calls) + spec_u64_to_le_bytes(default_window_secs),
            InstructionView::RegisterService { service_id, max_calls, window_secs } => seq![1u8]
                + spec_u32_to_le_bytes(service_id.len() as u32) + service_id + spec_u64_to_le_bytes(max_calls)
                + spec_u64_to_le_bytes(window_secs),
            InstructionView::CheckRateLimit { service_id } => seq![2u8] + spec_u32_to_le_bytes(
                service_id.len() as u32,
            ) + service_id,
            InstructionView::ResetClient { service_id, client } => seq![3u8] + spec_u32_to_le_bytes(
                service_id.len() as u32,
            ) + service_id + client,
            InstructionView::UpdateService { service_id, max_calls, window_secs, active } => seq![4u8]
                + spec_u32_to_le_bytes(service_id.len() as u32) + service_id + spec_u64_to_le_bytes(max_calls)
                + spec_u64_to_le_bytes(window_secs) + seq![if active { 1u8 } else { 0u8 }],
        }),
        decode_instruction(v.encode()) == Some(v),
{
    law_instruction_round_trip(v);
    match v {
        InstructionView::UpdateService { service_id, max_calls, window_secs, active } => {
            assert(bool_byte(active) == (if active { 1u8 } else { 0u8 }));
        },
        _ => {},
    }
}

/// An UpdateService whose last byte is neither 0 nor 1 is no request.
pub proof fn law_update_flag_is_zero_or_one(service_id: Seq<u8>, max_calls: u64, window_secs: u64, flag: u8)
    requires
        storable_string(service_id),
        flag > 1,
    ensures
        decode_instruction(
            seq![4u8] + spec_u32_to_le_bytes(service_id.len() as u32) + service_id + spec_u64_to_le_bytes(max_calls)
                + spec_u64_to_le_bytes(window_secs) + seq![flag],
        ) is None,
{
    let tail = spec_u64_to_le_bytes(max_calls) + spec_u64_to_le_bytes(window_secs) + seq![flag];
    let d = seq![4u8] + spec_u32_to_le_bytes(service_id.len() as u32) + service_id + tail;
    lemma_u64_le(max_calls);
    lemma_u64_le(window_secs);
    assert(d.skip(1) =~= string_field(service_id) + tail);
    lemma_string_round_trip(service_id, tail);
    assert(tail[16] == flag);
}

} // verus!
