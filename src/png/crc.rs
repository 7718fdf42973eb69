//! Table-driven CRC-32 with the zlib/PNG polynomial.
use vstd::prelude::*;
use crate::png::bytes::{be_bytes, u32_to_be_bytes, lemma_be_round_trip};

verus! {

/// The reflected zlib/PNG polynomial.
pub const CRC_POLYNOMIAL: u32 = 0xedb88320;

/// One bit step of the reflected CRC register.
pub open spec fn crc_bit_step(c: u32) -> u32 {
    if c & 1 != 0 { CRC_POLYNOMIAL ^ (c >> 1u32) } else { c >> 1u32 }
}

/// `k` bit steps of the CRC register.
pub open spec fn crc_bits(c: u32, k: nat) -> u32
    decreases k,
{
    if k == 0 { c } else { crc_bit_step(crc_bits(c, (k - 1) as nat)) }
}

/// Entry `n` of the lookup table: eight bit steps from `n`.
pub open spec fn crc_table_entry(n: u32) -> u32 {
    crc_bits(n, 8)
}

/// One byte step of the CRC register.
pub open spec fn crc_byte_step(c: u32, b: u8) -> u32 {
    crc_table_entry((c ^ (b as u32)) & 0xff) ^ (c >> 8u32)
}

/// The CRC register after feeding `data`, starting from `c`.
pub open spec fn crc_update_spec(c: u32, data: Seq<u8>) -> u32
    decreases data.len(),
{
    if data.len() == 0 { c } else { crc_byte_step(crc_update_spec(c, data.drop_last()), data.last()) }
}

/// CRC-32 of `data`: initial and final XOR with all ones.
pub open spec fn crc32(data: Seq<u8>) -> u32 {
    crc_update_spec(0xffffffff, data) ^ 0xffffffff
}

/// The CRC field that a chunk stores for `data`.
pub open spec fn crc_field(data: Seq<u8>) -> Seq<u8> {
    be_bytes(crc32(data))
}

/// Builds the 256-entry lookup table.
pub fn make_crc_table() -> (t: Vec<u32>)
    ensures
        t@.len() == 256,
        forall|i: int| 0 <= i < 256 ==> t@[i] == crc_table_entry(i as u32),
{
    let mut t: Vec<u32> = Vec::with_capacity(256);
    let mut n: u32 = 0;
    while n < 256
        invariant
            n <= 256,
            t@.len() == n,
            forall|i: int| 0 <= i < n ==> t@[i] == crc_table_entry(i as u32),
        decreases 256 - n,
    {
        let mut c: u32 = n;
        let mut k: u32 = 0;
        while k < 8
            invariant
                k <= 8,
                c == crc_bits(n, k as nat),
            decreases 8 - k,
        {
            if c & 1 != 0 {
                c = CRC_POLYNOMIAL ^ (c >> 1);
            } else {
                c = c >> 1;
            }
            k = k + 1;
        }
        t.push(c);
        n = n + 1;
    }
    t
}

/// The 256-entry lookup table, built once and shared by every checksum a
/// stream needs.
pub struct CrcTable {
    table: Vec<u32>,
}

impl CrcTable {
    #[verifier::type_invariant]
    spec fn inv(&self) -> bool {
        &&& self.table@.len() == 256
        &&& forall|i: int| 0 <= i < 256 ==> self.table@[i] == crc_table_entry(i as u32)
    }

    /// Builds the table.
    pub fn new() -> (t: Self) {
        CrcTable { table: make_crc_table() }
    }

    /// Feeds `data` into the CRC register `crc`.
    pub fn update(&self, crc: u32, data: &[u8]) -> (r: u32)
        ensures
            r == crc_update_spec(crc, data@),
    {
        proof { use_type_invariant(self); }
        let mut c: u32 = crc;
        let mut n: usize = 0;
        while n < data.len()
            invariant
                n <= data@.len(),
                self.table@.len() == 256,
                forall|i: int| 0 <= i < 256 ==> self.table@[i] == crc_table_entry(i as u32),
                c == crc_update_spec(crc, data@.subrange(0, n as int)),
            decreases data.len() - n,
        {
            let ghost prev = data@.subrange(0, n as int);
            let byte: u32 = data[n] as u32;
            let idx: u32 = (c ^ byte) & 0xff;
            assert(idx < 256) by (bit_vector)
                requires idx == (c ^ byte) & 0xff;
            c = self.table[idx as usize] ^ (c >> 8);
            n = n + 1;
            assert(data@.subrange(0, n as int).drop_last() =~= prev);
        }
        assert(data@.subrange(0, data@.len() as int) =~= data@);
        c
    }

    /// The CRC-32 of `data` as four big-endian bytes.
    pub fn checksum(&self, data: &[u8]) -> (r: [u8; 4])
        ensures
            r@ == crc_field(data@),
    {
        u32_to_be_bytes(self.update(0xffffffff, data) ^ 0xffffffff)
    }
}

/// Feeds `data` into the CRC register `crc`, with a table built for the call.
pub fn update_crc(crc: u32, data: &[u8]) -> (r: u32)
    ensures
        r == crc_update_spec(crc, data@),
{
    CrcTable::new().update(crc, data)
}

/// The CRC-32 of `data` as four big-endian bytes, with a table built for the call.
pub fn crc(data: &[u8]) -> (r: [u8; 4])
    ensures
        r@ == crc_field(data@),
{
    CrcTable::new().checksum(data)
}

/// Byte-wise XOR of two sequences of equal length.
pub open spec fn xor_bytes(a: Seq<u8>, b: Seq<u8>) -> Seq<u8> {
    Seq::new(a.len(), |i: int| a[i] ^ b[i])
}

proof fn lemma_bit_step_xor(a: u32, b: u32)
    ensures
        crc_bit_step(a ^ b) == crc_bit_step(a) ^ crc_bit_step(b),
{
    assert((if (a ^ b) & 1 != 0 { 0xedb88320u32 ^ ((a ^ b) >> 1u32) } else { (a ^ b) >> 1u32 })
        == (if a & 1 != 0 { 0xedb88320u32 ^ (a >> 1u32) } else { a >> 1u32 })
            ^ (if b & 1 != 0 { 0xedb88320u32 ^ (b >> 1u32) } else { b >> 1u32 })) by (bit_vector);
}

proof fn lemma_bit_step_zero(c: u32)
    ensures
        (crc_bit_step(c) == 0) == (c == 0),
{
    assert(((if c & 1 != 0 { 0xedb88320u32 ^ (c >> 1u32) } else { c >> 1u32 }) == 0) == (c == 0)) by (bit_vector);
}

proof fn lemma_crc_bits_xor(a: u32, b: u32, k: nat)
    ensures
        crc_bits(a ^ b, k) == crc_bits(a, k) ^ crc_bits(b, k),
    decreases k,
{
    if k > 0 {
        lemma_crc_bits_xor(a, b, (k - 1) as nat);
        lemma_bit_step_xor(crc_bits(a, (k - 1) as nat), crc_bits(b, (k - 1) as nat));
    }
}

proof fn lemma_crc_bits_zero(c: u32, k: nat)
    ensures
        (crc_bits(c, k) == 0) == (c == 0),
    decreases k,
{
    if k > 0 {
        lemma_crc_bits_zero(c, (k - 1) as nat);
        lemma_bit_step_zero(crc_bits(c, (k - 1) as nat));
    }
}

/// Bit steps of a register whose low eight bits are clear only shift it.
proof fn lemma_crc_bits_high(x: u32, k: u32)
    requires
        x & 0xff == 0,
        k <= 8,
    ensures
        crc_bits(x, k as nat) == x >> k,
    decreases k,
{
    if k == 0 {
        assert(x >> 0u32 == x) by (bit_vector);
    } else {
        let j = (k - 1) as u32;
        lemma_crc_bits_high(x, j);
        let y = x >> j;
        assert(y & 1 == 0 && y >> 1u32 == x >> k) by (bit_vector)
            requires x & 0xff == 0, j < 8, k == j + 1, y == x >> j;
    }
}

/// One byte step with a zero byte is eight bit steps of the register.
proof fn lemma_byte_step_zero_byte(c: u32)
    ensures
        crc_byte_step(c, 0) == crc_bits(c, 8),
{
    let lo = c & 0xff;
    let hi = c & 0xffff_ff00;
    assert(c == lo ^ hi && hi & 0xff == 0 && (c ^ 0u32) & 0xff == lo && c >> 8u32 == hi >> 8u32) by (bit_vector)
        requires lo == c & 0xff, hi == c & 0xffff_ff00;
    lemma_crc_bits_xor(lo, hi, 8);
    lemma_crc_bits_high(hi, 8);
}

proof fn lemma_byte_step_xor(c1: u32, b1: u8, c2: u32, b2: u8)
    ensures
        crc_byte_step(c1 ^ c2, b1 ^ b2) == crc_byte_step(c1, b1) ^ crc_byte_step(c2, b2),
{
    let x1 = b1 as u32;
    let x2 = b2 as u32;
    let x = (b1 ^ b2) as u32;
    assert(x == x1 ^ x2) by (bit_vector)
        requires x1 == b1 as u32, x2 == b2 as u32, x == (b1 ^ b2) as u32;
    let i1 = (c1 ^ x1) & 0xff;
    let i2 = (c2 ^ x2) & 0xff;
    assert(((c1 ^ c2) ^ x) & 0xff == i1 ^ i2 && (c1 ^ c2) >> 8u32 == (c1 >> 8u32) ^ (c2 >> 8u32)) by (bit_vector)
        requires x == x1 ^ x2, i1 == (c1 ^ x1) & 0xff, i2 == (c2 ^ x2) & 0xff;
    lemma_crc_bits_xor(i1, i2, 8);
    let t1 = crc_table_entry(i1);
    let t2 = crc_table_entry(i2);
    let h1 = c1 >> 8u32;
    let h2 = c2 >> 8u32;
    assert((t1 ^ t2) ^ (h1 ^ h2) == (t1 ^ h1) ^ (t2 ^ h2)) by (bit_vector);
}

/// The CRC register is linear: feeding the XOR of two inputs into the XOR
/// of two registers gives the XOR of the results.
proof fn lemma_update_xor(c1: u32, c2: u32, a: Seq<u8>, b: Seq<u8>)
    requires
        a.len() == b.len(),
    ensures
        crc_update_spec(c1 ^ c2, xor_bytes(a, b)) == crc_update_spec(c1, a) ^ crc_update_spec(c2, b),
    decreases a.len(),
{
    if a.len() > 0 {
        let x = xor_bytes(a, b);
        assert(x.drop_last() =~= xor_bytes(a.drop_last(), b.drop_last()));
        lemma_update_xor(c1, c2, a.drop_last(), b.drop_last());
        lemma_byte_step_xor(crc_update_spec(c1, a.drop_last()), a.last(), crc_update_spec(c2, b.drop_last()), b.last());
    }
}

proof fn lemma_update_append(c: u32, a: Seq<u8>, b: Seq<u8>)
    ensures
        crc_update_spec(c, a + b) == crc_update_spec(crc_update_spec(c, a), b),
    decreases b.len(),
{
    if b.len() == 0 {
        assert(a + b =~= a);
    } else {
        assert((a + b).drop_last() =~= a + b.drop_last());
        lemma_update_append(c, a, b.drop_last());
    }
}

/// Zero bytes keep a zero register at zero and a nonzero one nonzero.
proof fn lemma_update_zeros(c: u32, n: nat)
    ensures
        (crc_update_spec(c, Seq::new(n, |i: int| 0u8)) == 0) == (c == 0),
    decreases n,
{
    if n > 0 {
        let z = Seq::new(n, |i: int| 0u8);
        assert(z.drop_last() =~= Seq::new((n - 1) as nat, |i: int| 0u8));
        lemma_update_zeros(c, (n - 1) as nat);
        let r = crc_update_spec(c, z.drop_last());
        lemma_byte_step_zero_byte(r);
        lemma_crc_bits_zero(r, 8);
    }
}

/// CRC-32 detects every single-bit error: flipping one bit of the input
/// changes the checksum.
pub proof fn lemma_crc32_single_bit(data: Seq<u8>, j: int, bit: u8)
    requires
        0 <= j < data.len(),
        bit < 8,
    ensures
        crc32(data.update(j, data[j] ^ (1u8 << bit))) != crc32(data),
        crc_field(data.update(j, data[j] ^ (1u8 << bit))) != crc_field(data),
{
    let m = 1u8 << bit;
    let dj = data[j];
    assert(m != 0 && (dj ^ m) ^ dj == m && dj ^ (dj ^ m) == m) by (bit_vector)
        requires bit < 8, m == 1u8 << bit;
    let d2 = data.update(j, data[j] ^ m);
    let e = xor_bytes(data, d2);
    let pre = Seq::new(j as nat, |i: int| 0u8);
    let post = Seq::new((data.len() - j - 1) as nat, |i: int| 0u8);
    assert forall|i: int| 0 <= i < data.len() && i != j implies #[trigger] e[i] == 0u8 by {
        let v = data[i];
        assert(v ^ v == 0u8) by (bit_vector);
    }
    assert(e[j] == m);
    assert(e =~= pre + seq![m] + post);
    lemma_update_xor(0xffffffff, 0xffffffff, data, d2);
    assert(0xffffffffu32 ^ 0xffffffffu32 == 0u32) by (bit_vector);
    lemma_update_append(0, pre + seq![m], post);
    lemma_update_append(0, pre, seq![m]);
    lemma_update_zeros(0, j as nat);
    let r0 = crc_update_spec(0, pre);
    assert(r0 == 0);
    assert(seq![m].drop_last() =~= Seq::<u8>::empty());
    assert(crc_update_spec(r0, Seq::<u8>::empty()) == r0);
    assert(crc_update_spec(r0, seq![m]) == crc_byte_step(0, m));
    let idx = (0u32 ^ (m as u32)) & 0xff;
    assert(idx != 0 && (0u32 >> 8u32) == 0) by (bit_vector)
        requires m != 0, idx == (0u32 ^ (m as u32)) & 0xff;
    lemma_crc_bits_zero(idx, 8);
    let t = crc_table_entry(idx);
    assert(t ^ 0u32 == t) by (bit_vector);
    lemma_update_zeros(crc_byte_step(0, m), post.len());
    let u1 = crc_update_spec(0xffffffff, data);
    let u2 = crc_update_spec(0xffffffff, d2);
    assert(u1 ^ u2 != 0);
    assert((u1 ^ 0xffffffffu32) != (u2 ^ 0xffffffffu32)) by (bit_vector)
        requires u1 ^ u2 != 0;
    lemma_be_round_trip(crc32(data));
    lemma_be_round_trip(crc32(d2));
}

} // verus!
