use vstd::prelude::*;
use vstd::bytes::{spec_u64_from_le_bytes, spec_u64_to_le_bytes};
use crate::codec::{
    bool_byte, i64_from_le, i64_le, lemma_i64_le, lemma_le_i64, lemma_le_u64, lemma_u64_le,
    overwrite_prefix, push_all, push_i64, push_u64, read_array32, read_i64, read_u64,
};
use crate::error::IoFailure;
use crate::key::{lemma_pubkey_view_injective, Pubkey};

verus! {

// ─── Config ──────────────────────────────────────────────────────────────────

/// Global settings, kept in the account derived from the seed `"config"`.
#[derive(Clone, Copy, Debug)]
pub struct Config {
    pub authority: Pubkey,
    pub default_max_calls: u64,
    pub default_window_secs: u64,
    pub bump: u8,
}

/// A `Config` as mathematical values.
pub struct ConfigView {
    pub authority: Seq<u8>,
    pub default_max_calls: u64,
    pub default_window_secs: u64,
    pub bump: u8,
}

impl View for Config {
    type V = ConfigView;

    open spec fn view(&self) -> ConfigView {
        ConfigView {
            authority: self.authority@,
            default_max_calls: self.default_max_calls,
            default_window_secs: self.default_window_secs,
            bump: self.bump,
        }
    }
}

impl ConfigView {
    /// The keys have their 32 bytes.
    pub open spec fn wf(self) -> bool {
        self.authority.len() == 32
    }

    /// The stored layout: the fields in order, integers little-endian.
    pub open spec fn encode(self) -> Seq<u8> {
        self.authority + spec_u64_to_le_bytes(self.default_max_calls) + spec_u64_to_le_bytes(
            self.default_window_secs,
        ) + seq![self.bump]
    }
}

/// The `Config` stored at the start of `data`; bytes after it are ignored.
pub open spec fn decode_config(data: Seq<u8>) -> Result<ConfigView, IoFailure> {
    if data.len() < 49 {
        Err(IoFailure::UnexpectedLength)
    } else {
        Ok(
            ConfigView {
                authority: data.subrange(0, 32),
                default_max_calls: spec_u64_from_le_bytes(data.subrange(32, 40)),
                default_window_secs: spec_u64_from_le_bytes(data.subrange(40, 48)),
                bump: data[48],
            },
        )
    }
}

impl Config {
    /// Space reserved for the account.
    pub const SIZE: usize = 32 + 8 + 8 + 1 + 8;

    /// Bytes of the stored layout.
    pub const PACKED_LEN: usize = 32 + 8 + 8 + 1;

    /// The stored layout of this value.
    pub fn pack(&self) -> (bytes: Vec<u8>)
        ensures
            bytes@ == self@.encode(),
    {
        let mut out: Vec<u8> = Vec::new();
        push_all(&mut out, &self.authority.bytes);
        push_u64(&mut out, self.default_max_calls);
        push_u64(&mut out, self.default_window_secs);
        out.push(self.bump);
        proof {
            assert(out@ =~= self@.encode());
        }
        out
    }

    /// Reads a value from the start of `data`.
    pub fn unpack(data: &[u8]) -> (res: Result<Config, IoFailure>)
        ensures
            (match res {
                Ok(c) => decode_config(data@) == Ok::<ConfigView, IoFailure>(c@),
                Err(e) => decode_config(data@) == Err::<ConfigView, IoFailure>(e),
            }),
    {
        if data.len() < 49 {
            return Err(IoFailure::UnexpectedLength);
        }
        let authority = Pubkey { bytes: read_array32(data, 0) };
        let default_max_calls = read_u64(data, 32);
        let default_window_secs = read_u64(data, 40);
        let bump = data[48];
        Ok(Config { authority, default_max_calls, default_window_secs, bump })
    }

    /// Writes this value over the start of an account's `data`, as
    /// serializing into the account does.
    pub fn write_into(&self, data: &[u8]) -> (res: Result<Vec<u8>, IoFailure>)
        ensures
            self@.encode().len() == 49,
            data@.len() < 49 ==> res == Err::<Vec<u8>, IoFailure>(IoFailure::WriteZero),
            data@.len() >= 49 ==> (res matches Ok(v) && v@ == self@.encode() + data@.skip(49)),
    {
        let bytes = self.pack();
        proof {
            lemma_u64_le(self.default_max_calls);
            lemma_u64_le(self.default_window_secs);
        }
        overwrite_prefix(data, bytes.as_slice())
    }
}

/// Reading back a stored `Config` gives the same value, whatever follows it.
pub proof fn law_config_round_trip(v: ConfigView, tail: Seq<u8>)
    requires
        v.wf(),
    ensures
        v.encode().len() == 49,
        decode_config(v.encode() + tail) == Ok::<ConfigView, IoFailure>(v),
{
    lemma_u64_le(v.default_max_calls);
    lemma_u64_le(v.default_window_secs);
    let d = v.encode() + tail;
    assert(d.subrange(0, 32) =~= v.authority);
    assert(d.subrange(32, 40) =~= spec_u64_to_le_bytes(v.default_max_calls));
    assert(d.subrange(40, 48) =~= spec_u64_to_le_bytes(v.default_window_secs));
}

/// Whatever reads as a `Config` is that `Config`'s stored layout, followed by the rest.
pub proof fn law_config_decode_encode(data: Seq<u8>)
    requires
        decode_config(data) is Ok,
    ensures
        decode_config(data)->Ok_0.wf(),
        decode_config(data)->Ok_0.encode() == data.take(49),
{
    lemma_le_u64(data.subrange(32, 40));
    lemma_le_u64(data.subrange(40, 48));
    assert(decode_config(data)->Ok_0.encode() =~= data.take(49));
}

/// A `Config` is determined by its view.
pub proof fn lemma_config_view_injective(a: Config, b: Config)
    requires
        a@ == b@,
    ensures
        a == b,
{
    lemma_pubkey_view_injective(a.authority, b.authority);
}

// ─── Service ─────────────────────────────────────────────────────────────────

/// Limits of one service, kept in the account derived from `"service"` and its id.
#[derive(Clone, Copy, Debug)]
pub struct Service {
    pub service_id: [u8; 32],
    pub max_calls: u64,
    pub window_secs: u64,
    pub active: bool,
    pub created_at: i64,
    pub bump: u8,
}

/// A `Service` as mathematical values.
pub struct ServiceView {
    pub service_id: Seq<u8>,
    pub max_calls: u64,
    pub window_secs: u64,
    pub active: bool,
    pub created_at: i64,
    pub bump: u8,
}

impl View for Service {
    type V = ServiceView;

    open spec fn view(&self) -> ServiceView {
        ServiceView {
            service_id: self.service_id@,
            max_calls: self.max_calls,
            window_secs: self.window_secs,
            active: self.active,
            created_at: self.created_at,
            bump: self.bump,
        }
    }
}

impl ServiceView {
    /// The id has its 32 bytes.
    pub open spec fn wf(self) -> bool {
        self.service_id.len() == 32
    }

    /// The stored layout: the fields in order, integers little-endian, the flag as 0 or 1.
    pub open spec fn encode(self) -> Seq<u8> {
        self.service_id + spec_u64_to_le_bytes(self.max_calls) + spec_u64_to_le_bytes(
            self.window_secs,
        ) + seq![bool_byte(self.active)] + i64_le(self.created_at) + seq![self.bump]
    }
}

/// The `Service` stored at the start of `data`; the fields are read in order,
/// so a bad flag byte is reported before a missing tail.
pub open spec fn decode_service(data: Seq<u8>) -> Result<ServiceView, IoFailure> {
    if data.len() < 49 {
        Err(IoFailure::UnexpectedLength)
    } else if data[48] > 1 {
        Err(IoFailure::InvalidBool(data[48]))
    } else if data.len() < 58 {
        Err(IoFailure::UnexpectedLength)
    } else {
        Ok(
            ServiceView {
                service_id: data.subrange(0, 32),
                max_calls: spec_u64_from_le_bytes(data.subrange(32, 40)),
                window_secs: spec_u64_from_le_bytes(data.subrange(40, 48)),
                active: data[48] == 1,
                created_at: i64_from_le(data.subrange(49, 57)),
                bump: data[57],
            },
        )
    }
}

impl Service {
    /// Space reserved for the account.
    pub const SIZE: usize = 32 + 8 + 8 + 1 + 8 + 1 + 8;

    /// Bytes of the stored layout.
    pub const PACKED_LEN: usize = 32 + 8 + 8 + 1 + 8 + 1;

    /// The stored layout of this value.
    pub fn pack(&self) -> (bytes: Vec<u8>)
        ensures
            bytes@ == self@.encode(),
    {
        let mut out: Vec<u8> = Vec::new();
        push_all(&mut out, &self.service_id);
        push_u64(&mut out, self.max_calls);
        push_u64(&mut out, self.window_secs);
        out.push(if self.active { 1u8 } else { 0u8 });
        push_i64(&mut out, self.created_at);
        out.push(self.bump);
        proof {
            assert(out@ =~= self@.encode());
        }
        out
    }

    /// Reads a value from the start of `data`.
    pub fn unpack(data: &[u8]) -> (res: Result<Service, IoFailure>)
        ensures
            (match res {
                Ok(s) => decode_service(data@) == Ok::<ServiceView, IoFailure>(s@),
                Err(e) => decode_service(data@) == Err::<ServiceView, IoFailure>(e),
            }),
    {
        if data.len() < 49 {
            return Err(IoFailure::UnexpectedLength);
        }
        let flag = data[48];
        if flag > 1 {
            return Err(IoFailure::InvalidBool(flag));
        }
        if data.len() < 58 {
            return Err(IoFailure::UnexpectedLength);
        }
        let service_id = read_array32(data, 0);
        let max_calls = read_u64(data, 32);
        let window_secs = read_u64(data, 40);
        let created_at = read_i64(data, 49);
        let bump = data[57];
        Ok(Service { service_id, max_calls, window_secs, active: flag == 1, created_at, bump })
    }

    /// Writes this value over the start of an account's `data`, as
    /// serializing into the account does.
    pub fn write_into(&self, data: &[u8]) -> (res: Result<Vec<u8>, IoFailure>)
        ensures
            self@.encode().len() == 58,
            data@.len() < 58 ==> res == Err::<Vec<u8>, IoFailure>(IoFailure::WriteZero),
            data@.len() >= 58 ==> (res matches Ok(v) && v@ == self@.encode() + data@.skip(58)),
    {
        let bytes = self.pack();
        proof {
            lemma_u64_le(self.max_calls);
            lemma_u64_le(self.window_secs);
            lemma_i64_le(self.created_at);
        }
        overwrite_prefix(data, bytes.as_slice())
    }
}

/// Reading back a stored `Service` gives the same value, whatever follows it.
pub proof fn law_service_round_trip(v: ServiceView, tail: Seq<u8>)
    requires
        v.wf(),
    ensures
        v.encode().len() == 58,
        decode_service(v.encode() + tail) == Ok::<ServiceView, IoFailure>(v),
{
    lemma_u64_le(v.max_calls);
    lemma_u64_le(v.window_secs);
    lemma_i64_le(v.created_at);
    let d = v.encode() + tail;
    assert(d.subrange(0, 32) =~= v.service_id);
    assert(d.subrange(32, 40) =~= spec_u64_to_le_bytes(v.max_calls));
    assert(d.subrange(40, 48) =~= spec_u64_to_le_bytes(v.window_secs));
    assert(d.subrange(49, 57) =~= i64_le(v.created_at));
    assert(d[48] == bool_byte(v.active));
}

/// Whatever reads as a `Service` is that `Service`'s stored layout, followed by the rest.
pub proof fn law_service_decode_encode(data: Seq<u8>)
    requires
        decode_service(data) is Ok,
    ensures
        decode_service(data)->Ok_0.wf(),
        decode_service(data)->Ok_0.encode() == data.take(58),
{
    lemma_le_u64(data.subrange(32, 40));
    lemma_le_u64(data.subrange(40, 48));
    lemma_le_i64(data.subrange(49, 57));
    assert(decode_service(data)->Ok_0.encode() =~= data.take(58));
}

/// The stored flag byte of a service (byte 48) is 1 when it is active and 0
/// when it is paused, and reading takes 1 as active, 0 as paused and refuses
/// any other byte.
pub proof fn law_service_flag_byte(v: ServiceView, data: Seq<u8>)
    requires
        v.wf(),
    ensures
        v.encode()[48] == (if v.active { 1u8 } else { 0u8 }),
        data.len() >= 58 && data[48] == 1 ==> (decode_service(data) matches Ok(s) && s.active),
        data.len() >= 58 && data[48] == 0 ==> (decode_service(data) matches Ok(s) && !s.active),
        data.len() >= 49 && data[48] > 1 ==> decode_service(data) == Err::<ServiceView, IoFailure>(IoFailure::InvalidBool(data[48])),
{
    lemma_u64_le(v.max_calls);
    lemma_u64_le(v.window_secs);
}

/// A `Service` is determined by its view.
pub proof fn lemma_service_view_injective(a: Service, b: Service)
    requires
        a@ == b@,
    ensures
        a == b,
{
    assert(a.service_id =~= b.service_id);
}

// ─── ClientRecord ────────────────────────────────────────────────────────────

/// What one client has used of one service, kept in the account derived from
/// `"client"`, the service id and the client's address.
#[derive(Clone, Copy, Debug)]
pub struct ClientRecord {
    pub service_id: [u8; 32],
    pub client: Pubkey,
    pub call_count: u64,
    pub window_start: i64,
    pub last_call: i64,
    pub bump: u8,
}

/// A `ClientRecord` as mathematical values.
pub struct ClientRecordView {
    pub service_id: Seq<u8>,
    pub client: Seq<u8>,
    pub call_count: u64,
    pub window_start: i64,
    pub last_call: i64,
    pub bump: u8,
}

impl View for ClientRecord {
    type V = ClientRecordView;

    open spec fn view(&self) -> ClientRecordView {
        ClientRecordView {
            service_id: self.service_id@,
            client: self.client@,
            call_count: self.call_count,
            window_start: self.window_start,
            last_call: self.last_call,
            bump: self.bump,
        }
    }
}

impl ClientRecordView {
    /// The id and the key have their 32 bytes.
    pub open spec fn wf(self) -> bool {
        self.service_id.len() == 32 && self.client.len() == 32
    }

    /// The stored layout: the fields in order, integers little-endian.
    pub open spec fn encode(self) -> Seq<u8> {
        self.service_id + self.client + spec_u64_to_le_bytes(self.call_count) + i64_le(
            self.window_start,
        ) + i64_le(self.last_call) + seq![self.bump]
    }
}

/// The `ClientRecord` stored at the start of `data`; bytes after it are ignored.
pub open spec fn decode_client_record(data: Seq<u8>) -> Result<ClientRecordView, IoFailure> {
    if data.len() < 89 {
        Err(IoFailure::UnexpectedLength)
    } else {
        Ok(
            ClientRecordView {
                service_id: data.subrange(0, 32),
                client: data.subrange(32, 64),
                call_count: spec_u64_from_le_bytes(data.subrange(64, 72)),
                window_start: i64_from_le(data.subrange(72, 80)),
                last_call: i64_from_le(data.subrange(80, 88)),
                bump: data[88],
            },
        )
    }
}

impl ClientRecord {
    /// Space reserved for the account.
    pub const SIZE: usize = 32 + 32 + 8 + 8 + 8 + 1 + 8;

    /// Bytes of the stored layout.
    pub const PACKED_LEN: usize = 32 + 32 + 8 + 8 + 8 + 1;

    /// The stored layout of this value.
    pub fn pack(&self) -> (bytes: Vec<u8>)
        ensures
            bytes@ == self@.encode(),
    {
        let mut out: Vec<u8> = Vec::new();
        push_all(&mut out, &self.service_id);
        push_all(&mut out, &self.client.bytes);
        push_u64(&mut out, self.call_count);
        push_i64(&mut out, self.window_start);
        push_i64(&mut out, self.last_call);
        out.push(self.bump);
        proof {
            assert(out@ =~= self@.encode());
        }
        out
    }

    /// Reads a value from the start of `data`.
    pub fn unpack(data: &[u8]) -> (res: Result<ClientRecord, IoFailure>)
        ensures
            (match res {
                Ok(r) => decode_client_record(data@) == Ok::<ClientRecordView, IoFailure>(r@),
                Err(e) => decode_client_record(data@) == Err::<ClientRecordView, IoFailure>(e),
            }),
    {
        if data.len() < 89 {
            return Err(IoFailure::UnexpectedLength);
        }
        let service_id = read_array32(data, 0);
        let client = Pubkey { bytes: read_array32(data, 32) };
        let call_count = read_u64(data, 64);
        let window_start = read_i64(data, 72);
        let last_call = read_i64(data, 80);
        let bump = data[88];
        Ok(ClientRecord { service_id, client, call_count, window_start, last_call, bump })
    }

    /// Writes this value over the start of an account's `data`, as
    /// serializing into the account does.
    pub fn write_into(&self, data: &[u8]) -> (res: Result<Vec<u8>, IoFailure>)
        ensures
            self@.encode().len() == 89,
            data@.len() < 89 ==> res == Err::<Vec<u8>, IoFailure>(IoFailure::WriteZero),
            data@.len() >= 89 ==> (res matches Ok(v) && v@ == self@.encode() + data@.skip(89)),
    {
        let bytes = self.pack();
        proof {
            lemma_u64_le(self.call_count);
            lemma_i64_le(self.window_start);
            lemma_i64_le(self.last_call);
        }
        overwrite_prefix(data, bytes.as_slice())
    }
}

/// Reading back a stored `ClientRecord` gives the same value, whatever follows it.
pub proof fn law_client_record_round_trip(v: ClientRecordView, tail: Seq<u8>)
    requires
        v.wf(),
    ensures
        v.encode().len() == 89,
        decode_client_record(v.encode() + tail) == Ok::<ClientRecordView, IoFailure>(v),
{
    lemma_u64_le(v.call_count);
    lemma_i64_le(v.window_start);
    lemma_i64_le(v.last_call);
    let d = v.encode() + tail;
    assert(d.subrange(0, 32) =~= v.service_id);
    assert(d.subrange(32, 64) =~= v.client);
    assert(d.subrange(64, 72) =~= spec_u64_to_le_bytes(v.call_count));
    assert(d.subrange(72, 80) =~= i64_le(v.window_start));
    assert(d.subrange(80, 88) =~= i64_le(v.last_call));
}

/// Whatever reads as a `ClientRecord` is that record's stored layout, followed by the rest.
pub proof fn law_client_record_decode_encode(data: Seq<u8>)
    requires
        decode_client_record(data) is Ok,
    ensures
        decode_client_record(data)->Ok_0.wf(),
        decode_client_record(data)->Ok_0.encode() == data.take(89),
{
    lemma_le_u64(data.subrange(64, 72));
    lemma_le_i64(data.subrange(72, 80));
    lemma_le_i64(data.subrange(80, 88));
    assert(decode_client_record(data)->Ok_0.encode() =~= data.take(89));
}

/// A `ClientRecord` is determined by its view.
pub proof fn lemma_client_record_view_injective(a: ClientRecord, b: ClientRecord)
    requires
        a@ == b@,
    ensures
        a == b,
{
    assert(a.service_id =~= b.service_id);
    lemma_pubkey_view_injective(a.client, b.client);
}

/// The stored layouts are borsh's for these fields in order: keys and ids as
/// their 32 bytes, integers little-endian (signed ones as two's complement),
/// the flag as the byte 1 (active) or 0 (paused), the bump as one byte.
pub proof fn law_layouts_are_borsh(c: ConfigView, s: ServiceView, r: ClientRecordView)
    ensures
        c.encode() == c.authority + spec_u64_to_le_bytes(c.default_max_calls) + spec_u64_to_le_bytes(
            c.default_window_secs,
        ) + seq![c.bump],
        s.encode() == s.service_id + spec_u64_to_le_bytes(s.max_calls) + spec_u64_to_le_bytes(s.window_secs)
            + seq![if s.active { 1u8 } else { 0u8 }] + spec_u64_to_le_bytes(s.created_at as u64) + seq![s.bump],
        r.encode() == r.service_id + r.client + spec_u64_to_le_bytes(r.call_count) + spec_u64_to_le_bytes(
            r.window_start as u64,
        ) + spec_u64_to_le_bytes(r.last_call as u64) + seq![r.bump],
{
}

} // verus!
