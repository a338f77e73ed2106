use vstd::prelude::*;

verus! {

/// The value of eight little-endian bytes.
pub open spec fn u64_from_le(s: Seq<u8>) -> int {
    s[0] as int + 0x100 * (s[1] as int + 0x100 * (s[2] as int + 0x100 * (s[3] as int + 0x100 * (
    s[4] as int + 0x100 * (s[5] as int + 0x100 * (s[6] as int + 0x100 * s[7] as int))))))
}

/// `v` with its `i` lowest bytes shifted out.
pub open spec fn shifted(v: int, i: nat) -> int
    decreases i,
{
    if i == 0 {
        v
    } else {
        shifted(v, (i - 1) as nat) / 0x100
    }
}

/// Byte `i` of `v`, counting from the least significant.
pub open spec fn byte_of(v: int, i: nat) -> u8 {
    (shifted(v, i) % 0x100) as u8
}

/// The eight little-endian bytes of `v`.
#[verifier::opaque]
pub open spec fn u64_le_bytes(v: u64) -> Seq<u8> {
    seq![
        byte_of(v as int, 0),
        byte_of(v as int, 1),
        byte_of(v as int, 2),
        byte_of(v as int, 3),
        byte_of(v as int, 4),
        byte_of(v as int, 5),
        byte_of(v as int, 6),
        byte_of(v as int, 7),
    ]
}

/// The two's-complement bit pattern of a signed 64-bit value.
pub open spec fn i64_bits(v: i64) -> u64 {
    if v >= 0 {
        v as u64
    } else {
        (v + 0x1_0000_0000_0000_0000) as u64
    }
}

/// The signed 64-bit value with a given bit pattern.
pub open spec fn i64_of_bits(u: int) -> i64 {
    if u < 0x8000_0000_0000_0000 {
        u as i64
    } else {
        (u - 0x1_0000_0000_0000_0000) as i64
    }
}

/// The eight little-endian bytes of a signed value's bit pattern.
pub open spec fn i64_le_bytes(v: i64) -> Seq<u8> {
    u64_le_bytes(i64_bits(v))
}

/// A flag as one byte.
pub open spec fn bool_byte(b: bool) -> u8 {
    if b {
        1
    } else {
        0
    }
}

proof fn lemma_split_byte(x: int)
    requires
        x >= 0,
    ensures
        x == 0x100 * (x / 0x100) + x % 0x100,
        0 <= x % 0x100 < 0x100,
        x / 0x100 >= 0,
{
    vstd::arithmetic::div_mod::lemma_fundamental_div_mod(x, 0x100);
}

proof fn lemma_join_byte(x: int, low: int, high: int)
    requires
        0 <= low < 0x100,
        x == low + 0x100 * high,
    ensures
        x % 0x100 == low,
        x / 0x100 == high,
{
    vstd::arithmetic::div_mod::lemma_fundamental_div_mod_converse(x, 0x100, high, low);
}

/// Encoding then decoding a value gives it back.
pub proof fn lemma_u64_round_trip(v: u64)
    ensures
        u64_le_bytes(v).len() == 8,
        u64_from_le(u64_le_bytes(v)) == v,
{
    reveal(u64_le_bytes);
    let x = v as int;
    reveal_with_fuel(shifted, 9);
    let q1 = shifted(x, 1);
    let q2 = shifted(x, 2);
    let q3 = shifted(x, 3);
    let q4 = shifted(x, 4);
    let q5 = shifted(x, 5);
    let q6 = shifted(x, 6);
    let q7 = shifted(x, 7);
    let q8 = shifted(x, 8);
    lemma_split_byte(x);
    lemma_split_byte(q1);
    lemma_split_byte(q2);
    lemma_split_byte(q3);
    lemma_split_byte(q4);
    lemma_split_byte(q5);
    lemma_split_byte(q6);
    lemma_split_byte(q7);
    let b = u64_le_bytes(v);
    assert(q8 == 0);
    assert(q7 == b[7] as int);
    assert(q6 == b[6] + 0x100 * q7);
    assert(q5 == b[5] + 0x100 * q6);
    assert(q4 == b[4] + 0x100 * q5);
    assert(q3 == b[3] + 0x100 * q4);
    assert(q2 == b[2] + 0x100 * q3);
    assert(q1 == b[1] + 0x100 * q2);
    assert(x == b[0] + 0x100 * q1);
}

/// Decoding eight bytes then encoding the value gives the bytes back.
pub proof fn lemma_u64_bytes_round_trip(s: Seq<u8>)
    requires
        s.len() == 8,
    ensures
        0 <= u64_from_le(s) <= u64::MAX,
        u64_le_bytes(u64_from_le(s) as u64) == s,
{
    reveal(u64_le_bytes);
    let r7 = s[7] as int;
    let r6 = s[6] + 0x100 * r7;
    let r5 = s[5] + 0x100 * r6;
    let r4 = s[4] + 0x100 * r5;
    let r3 = s[3] + 0x100 * r4;
    let r2 = s[2] + 0x100 * r3;
    let r1 = s[1] + 0x100 * r2;
    let x = s[0] + 0x100 * r1;
    assert(x == u64_from_le(s));
    assert(0 <= x <= u64::MAX);
    reveal_with_fuel(shifted, 9);
    lemma_join_byte(x, s[0] as int, r1);
    lemma_join_byte(r1, s[1] as int, r2);
    lemma_join_byte(r2, s[2] as int, r3);
    lemma_join_byte(r3, s[3] as int, r4);
    lemma_join_byte(r4, s[4] as int, r5);
    lemma_join_byte(r5, s[5] as int, r6);
    lemma_join_byte(r6, s[6] as int, r7);
    lemma_join_byte(r7, s[7] as int, 0);
    let b = u64_le_bytes(x as u64);
    assert(b =~= s);
}

/// Distinct values have distinct encodings.
pub proof fn lemma_u64_le_injective(x: u64, y: u64)
    requires
        u64_le_bytes(x) == u64_le_bytes(y),
    ensures
        x == y,
{
    lemma_u64_round_trip(x);
    lemma_u64_round_trip(y);
}

/// Distinct signed values have distinct encodings.
pub proof fn lemma_i64_le_injective(x: i64, y: i64)
    requires
        i64_le_bytes(x) == i64_le_bytes(y),
    ensures
        x == y,
{
    lemma_u64_le_injective(i64_bits(x), i64_bits(y));
    lemma_i64_round_trip(x);
    lemma_i64_round_trip(y);
}

/// Appends the eight little-endian bytes of `v`.
pub fn push_u64_le(out: &mut Vec<u8>, v: u64)
    ensures
        final(out)@ == old(out)@ + u64_le_bytes(v),
        u64_le_bytes(v).len() == 8,
{
    reveal(u64_le_bytes);
    let ghost start = out@;
    let mut q: u64 = v;
    let mut i: usize = 0;
    while i < 8
        invariant
            0 <= i <= 8,
            q == shifted(v as int, i as nat),
            out@ == start + u64_le_bytes(v).subrange(0, i as int),
        decreases 8 - i,
    {
        proof {
            reveal(u64_le_bytes);
        }
        out.push((q % 0x100) as u8);
        q = q / 0x100;
        i = i + 1;
        assert(out@ =~= start + u64_le_bytes(v).subrange(0, i as int));
    }
    assert(u64_le_bytes(v).subrange(0, 8) =~= u64_le_bytes(v));
}

/// Reads eight little-endian bytes at `at`.
pub fn read_u64_le(data: &[u8], at: usize) -> (r: u64)
    requires
        at + 8 <= data@.len(),
    ensures
        r == u64_from_le(data@.subrange(at as int, at + 8)),
{
    let len = data.len();
    assert(at + 8 <= len);
    let r7: u64 = data[at + 7] as u64;
    let r6: u64 = data[at + 6] as u64 + 0x100 * r7;
    let r5: u64 = data[at + 5] as u64 + 0x100 * r6;
    let r4: u64 = data[at + 4] as u64 + 0x100 * r5;
    let r3: u64 = data[at + 3] as u64 + 0x100 * r4;
    let r2: u64 = data[at + 2] as u64 + 0x100 * r3;
    let r1: u64 = data[at + 1] as u64 + 0x100 * r2;
    let r: u64 = data[at] as u64 + 0x100 * r1;
    r
}

/// The bit pattern of a signed value.
pub fn i64_to_bits(v: i64) -> (r: u64)
    ensures
        r == i64_bits(v),
{
    if v >= 0 {
        v as u64
    } else {
        (v as i128 + 0x1_0000_0000_0000_0000i128) as u64
    }
}

/// The signed value with a given bit pattern.
pub fn i64_from_bits(u: u64) -> (r: i64)
    ensures
        r == i64_of_bits(u as int),
        i64_bits(r) == u,
{
    if u < 0x8000_0000_0000_0000 {
        u as i64
    } else {
        (u as i128 - 0x1_0000_0000_0000_0000i128) as i64
    }
}

/// Decoding a signed value's bit pattern gives it back.
pub proof fn lemma_i64_round_trip(v: i64)
    ensures
        i64_of_bits(i64_bits(v) as int) == v,
{
}

/// Whether every byte is zero: storage that holds no record yet.
pub fn is_blank(data: &[u8]) -> (r: bool)
    ensures
        r == forall|i: int| 0 <= i < data@.len() ==> data@[i] == 0,
{
    let mut i: usize = 0;
    while i < data.len()
        invariant
            0 <= i <= data@.len(),
            forall|j: int| 0 <= j < i ==> data@[j] == 0,
        decreases data@.len() - i,
    {
        if data[i] != 0 {
            return false;
        }
        i = i + 1;
    }
    true
}

/// Appends the bytes of an address.
pub fn push_bytes32(out: &mut Vec<u8>, b: &[u8; 32])
    ensures
        final(out)@ == old(out)@ + b@,
{
    let ghost start = out@;
    let mut i: usize = 0;
    while i < 32
        invariant
            0 <= i <= 32,
            out@ == start + b@.subrange(0, i as int),
        decreases 32 - i,
    {
        out.push(b[i]);
        i = i + 1;
        assert(out@ =~= start + b@.subrange(0, i as int));
    }
    assert(b@.subrange(0, 32) =~= b@);
}

/// Reads 32 bytes at `at`.
pub fn read_bytes32(data: &[u8], at: usize) -> (r: [u8; 32])
    requires
        at + 32 <= data@.len(),
    ensures
        r@ == data@.subrange(at as int, at + 32),
{
    let len = data.len();
    let mut r = [0u8; 32];
    let mut i: usize = 0;
    while i < 32
        invariant
            0 <= i <= 32,
            at + 32 <= data@.len(),
            r@.len() == 32,
            at + 32 <= len,
            forall|j: int| 0 <= j < i ==> r@[j] == data@[at + j],
        decreases 32 - i,
    {
        r[i] = data[at + i];
        i = i + 1;
    }
    assert(r@ =~= data@.subrange(at as int, at + 32));
    r
}

} // verus!
