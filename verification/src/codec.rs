use vstd::prelude::*;
use vstd::bytes::{spec_u64_from_le_bytes, spec_u64_to_le_bytes, spec_u32_from_le_bytes, spec_u32_to_le_bytes};

verus! {

/// The little-endian bytes of a signed 64-bit value, taken as two's complement.
pub open spec fn i64_le(x: i64) -> Seq<u8> {
    spec_u64_to_le_bytes(x as u64)
}

/// The signed 64-bit value whose little-endian two's complement bytes are `s`.
pub open spec fn i64_from_le(s: Seq<u8>) -> i64 {
    spec_u64_from_le_bytes(s) as i64
}

/// The byte that stands for a boolean.
pub open spec fn bool_byte(b: bool) -> u8 {
    if b { 1 } else { 0 }
}

/// Encoding then decoding a `u64` gives it back, and the encoding has 8 bytes.
pub proof fn lemma_u64_le(x: u64)
    ensures
        spec_u64_to_le_bytes(x).len() == 8,
        spec_u64_from_le_bytes(spec_u64_to_le_bytes(x)) == x,
{
    vstd::bytes::lemma_auto_spec_u64_to_from_le_bytes();
}

/// Any 8 bytes are the encoding of the `u64` they decode to.
pub proof fn lemma_le_u64(s: Seq<u8>)
    requires
        s.len() == 8,
    ensures
        spec_u64_to_le_bytes(spec_u64_from_le_bytes(s)) == s,
{
    vstd::bytes::lemma_auto_spec_u64_to_from_le_bytes();
}

/// Encoding then decoding a `u32` gives it back, and the encoding has 4 bytes.
pub proof fn lemma_u32_le(x: u32)
    ensures
        spec_u32_to_le_bytes(x).len() == 4,
        spec_u32_from_le_bytes(spec_u32_to_le_bytes(x)) == x,
{
    vstd::bytes::lemma_auto_spec_u32_to_from_le_bytes();
    assert(spec_u32_to_le_bytes(x).len() == 4);
}

/// Any 4 bytes are the encoding of the `u32` they decode to.
pub proof fn lemma_le_u32(s: Seq<u8>)
    requires
        s.len() == 4,
    ensures
        spec_u32_to_le_bytes(spec_u32_from_le_bytes(s)) == s,
{
    vstd::bytes::lemma_auto_spec_u32_to_from_le_bytes();
}

/// Encoding then decoding an `i64` gives it back, and the encoding has 8 bytes.
pub proof fn lemma_i64_le(x: i64)
    ensures
        i64_le(x).len() == 8,
        i64_from_le(i64_le(x)) == x,
{
    lemma_u64_le(x as u64);
    assert(((x as u64) as i64) == x) by (bit_vector);
}

/// Any 8 bytes are the encoding of the `i64` they decode to.
pub proof fn lemma_le_i64(s: Seq<u8>)
    requires
        s.len() == 8,
    ensures
        i64_le(i64_from_le(s)) == s,
{
    let u = spec_u64_from_le_bytes(s);
    assert(((u as i64) as u64) == u) by (bit_vector);
    lemma_le_u64(s);
}

/// The only `u64` whose little-endian bytes are all zero is 0.
pub proof fn lemma_u64_le_all_zero(x: u64)
    requires
        forall|i: int| 0 <= i < 8 ==> spec_u64_to_le_bytes(x)[i] == 0,
    ensures
        x == 0,
{
    vstd::bytes::spec_u64_to_le_bytes_to_open(x);
    let s = spec_u64_to_le_bytes(x);
    assert(s[0] == 0 && s[1] == 0 && s[2] == 0 && s[3] == 0);
    assert(s[4] == 0 && s[5] == 0 && s[6] == 0 && s[7] == 0);
    assert(((x & 0xff) as u8 == 0 && ((x >> 8) & 0xff) as u8 == 0 && ((x >> 16) & 0xff) as u8 == 0
        && ((x >> 24) & 0xff) as u8 == 0 && ((x >> 32) & 0xff) as u8 == 0 && ((x >> 40) & 0xff) as u8 == 0
        && ((x >> 48) & 0xff) as u8 == 0 && ((x >> 56) & 0xff) as u8 == 0) ==> x == 0) by (bit_vector);
}

/// Appends `bytes` to `out`.
pub(crate) fn push_all(out: &mut Vec<u8>, bytes: &[u8])
    ensures
        final(out)@ == old(out)@ + bytes@,
{
    let ghost start = out@;
    let mut i: usize = 0;
    while i < bytes.len()
        invariant
            0 <= i <= bytes@.len(),
            out@ == start + bytes@.subrange(0, i as int),
        decreases bytes@.len() - i,
    {
        out.push(bytes[i]);
        i = i + 1;
        assert(out@ =~= start + bytes@.subrange(0, i as int));
    }
    assert(bytes@.subrange(0, bytes@.len() as int) =~= bytes@);
}

/// Appends the little-endian bytes of `x`.
pub(crate) fn push_u64(out: &mut Vec<u8>, x: u64)
    ensures
        final(out)@ == old(out)@ + spec_u64_to_le_bytes(x),
{
    let bytes = vstd::bytes::u64_to_le_bytes(x);
    push_all(out, bytes.as_slice());
}

/// Appends the little-endian bytes of `x`.
pub(crate) fn push_u32(out: &mut Vec<u8>, x: u32)
    ensures
        final(out)@ == old(out)@ + spec_u32_to_le_bytes(x),
{
    let bytes = vstd::bytes::u32_to_le_bytes(x);
    push_all(out, bytes.as_slice());
}

/// Appends the little-endian two's complement bytes of `x`.
pub(crate) fn push_i64(out: &mut Vec<u8>, x: i64)
    ensures
        final(out)@ == old(out)@ + i64_le(x),
{
    push_u64(out, x as u64);
}

/// Reads the `u64` stored little-endian at `at`.
pub(crate) fn read_u64(data: &[u8], at: usize) -> (x: u64)
    requires
        at + 8 <= data@.len(),
    ensures
        x == spec_u64_from_le_bytes(data@.subrange(at as int, at + 8)),
{
    let _len = data.len();
    vstd::bytes::u64_from_le_bytes(&data[at..at + 8])
}

/// Reads the `u32` stored little-endian at `at`.
pub(crate) fn read_u32(data: &[u8], at: usize) -> (x: u32)
    requires
        at + 4 <= data@.len(),
    ensures
        x == spec_u32_from_le_bytes(data@.subrange(at as int, at + 4)),
{
    let _len = data.len();
    vstd::bytes::u32_from_le_bytes(&data[at..at + 4])
}

/// Reads the `i64` stored little-endian, two's complement, at `at`.
pub(crate) fn read_i64(data: &[u8], at: usize) -> (x: i64)
    requires
        at + 8 <= data@.len(),
    ensures
        x == i64_from_le(data@.subrange(at as int, at + 8)),
{
    read_u64(data, at) as i64
}

/// Copies the 32 bytes that start at `at`.
pub(crate) fn read_array32(data: &[u8], at: usize) -> (a: [u8; 32])
    requires
        at + 32 <= data@.len(),
    ensures
        a@ == data@.subrange(at as int, at + 32),
{
    let len = data.len();
    let mut a = [0u8; 32];
    let mut i: usize = 0;
    while i < 32
        invariant
            0 <= i <= 32,
            at + 32 <= data@.len(),
            len == data@.len(),
            a@.len() == 32,
            forall|j: int| 0 <= j < i ==> a@[j] == data@[at + j],
        decreases 32 - i,
    {
        a.set(i, data[at + i]);
        i = i + 1;
    }
    assert(a@ =~= data@.subrange(at as int, at + 32));
    a
}

/// What writing `bytes` at the start of an account buffer `data` gives: the
/// buffer with its first bytes replaced, or `WriteZero` when it is too small.
pub(crate) fn overwrite_prefix(data: &[u8], bytes: &[u8]) -> (res: Result<Vec<u8>, crate::error::IoFailure>)
    ensures
        bytes@.len() > data@.len() ==> res == Err::<Vec<u8>, crate::error::IoFailure>(crate::error::IoFailure::WriteZero),
        bytes@.len() <= data@.len() ==> (res matches Ok(v) && v@ == bytes@ + data@.skip(bytes@.len() as int)),
{
    if bytes.len() > data.len() {
        return Err(crate::error::IoFailure::WriteZero);
    }
    let mut out: Vec<u8> = Vec::new();
    push_all(&mut out, bytes);
    push_all(&mut out, &data[bytes.len()..data.len()]);
    assert(data@.subrange(bytes@.len() as int, data@.len() as int) =~= data@.skip(bytes@.len() as int));
    Ok(out)
}

} // verus!
