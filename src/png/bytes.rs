//! Big-endian integers and byte ranges.
use vstd::prelude::*;

verus! {

/// The big-endian value of four bytes.
pub open spec fn be_u32(s: Seq<u8>) -> int {
    s[0] as int * 0x1000000 + s[1] as int * 0x10000 + s[2] as int * 0x100 + s[3] as int
}

/// The four big-endian bytes of a 32-bit value.
pub open spec fn be_bytes(v: u32) -> Seq<u8> {
    seq![(v / 0x1000000) as u8, ((v / 0x10000) % 0x100) as u8, ((v / 0x100) % 0x100) as u8, (v % 0x100) as u8]
}

pub proof fn lemma_be_round_trip(v: u32)
    ensures
        be_bytes(v).len() == 4,
        be_u32(be_bytes(v)) == v as int,
{
    let s = be_bytes(v);
    assert(s[0] as int == v as int / 0x1000000);
    assert(s[1] as int == (v as int / 0x10000) % 0x100);
    assert(s[2] as int == (v as int / 0x100) % 0x100);
    assert(s[3] as int == v as int % 0x100);
    assert(be_u32(s) == v as int) by (nonlinear_arith)
        requires
            s[0] as int == v as int / 0x1000000,
            s[1] as int == (v as int / 0x10000) % 0x100,
            s[2] as int == (v as int / 0x100) % 0x100,
            s[3] as int == v as int % 0x100,
            v as int <= 0xffffffff,
            be_u32(s) == s[0] as int * 0x1000000 + s[1] as int * 0x10000 + s[2] as int * 0x100 + s[3] as int,
    ;
}

/// Four bytes, read as a big-endian value and written back, are unchanged.
pub proof fn lemma_be_bytes_of_value(s: Seq<u8>)
    requires
        s.len() == 4,
    ensures
        0 <= be_u32(s) <= u32::MAX,
        be_bytes(be_u32(s) as u32) == s,
{
    let v = be_u32(s);
    let a = s[0] as int;
    let b = s[1] as int;
    let c = s[2] as int;
    let d = s[3] as int;
    assert(v == a * 0x1000000 + b * 0x10000 + c * 0x100 + d);
    vstd::arithmetic::div_mod::lemma_fundamental_div_mod_converse(v, 0x1000000, a, b * 0x10000 + c * 0x100 + d);
    vstd::arithmetic::div_mod::lemma_fundamental_div_mod_converse(v, 0x10000, a * 0x100 + b, c * 0x100 + d);
    vstd::arithmetic::div_mod::lemma_fundamental_div_mod_converse(v, 0x100, a * 0x10000 + b * 0x100 + c, d);
    vstd::arithmetic::div_mod::lemma_fundamental_div_mod_converse(a * 0x100 + b, 0x100, a, b);
    vstd::arithmetic::div_mod::lemma_fundamental_div_mod_converse(a * 0x10000 + b * 0x100 + c, 0x100, a * 0x100 + b, c);
    let w = v as u32;
    assert(be_bytes(w) =~= s);
}

/// Reads a big-endian `u32` from four bytes.
pub fn be_bytes_to_u32(array: &[u8; 4]) -> (r: u32)
    ensures
        r as int == be_u32(array@),
{
    let r = (array[0] as u32) * 0x1000000 + (array[1] as u32) * 0x10000 + (array[2] as u32) * 0x100
        + (array[3] as u32);
    r
}

/// Writes a `u32` as four big-endian bytes.
pub fn u32_to_be_bytes(v: u32) -> (r: [u8; 4])
    ensures
        r@ == be_bytes(v),
{
    let r = [(v / 0x1000000) as u8, ((v / 0x10000) % 0x100) as u8, ((v / 0x100) % 0x100) as u8, (v % 0x100) as u8];
    assert(r@ =~= be_bytes(v));
    r
}

/// Copies `data[start..end]` into a new vector.
pub fn copy_range(data: &[u8], start: usize, end: usize) -> (r: Vec<u8>)
    requires
        start <= end <= data@.len(),
    ensures
        r@ == data@.subrange(start as int, end as int),
{
    let mut r: Vec<u8> = Vec::with_capacity(end - start);
    let mut i: usize = start;
    while i < end
        invariant
            start <= i <= end <= data@.len(),
            r@ == data@.subrange(start as int, i as int),
        decreases end - i,
    {
        r.push(data[i]);
        i = i + 1;
        assert(r@ =~= data@.subrange(start as int, i as int));
    }
    r
}

/// Appends all of `src` to `dst`.
pub fn append_bytes(dst: &mut Vec<u8>, src: &[u8])
    ensures
        final(dst)@ == old(dst)@ + src@,
{
    let mut i: usize = 0;
    while i < src.len()
        invariant
            i <= src@.len(),
            dst@ == old(dst)@ + src@.subrange(0, i as int),
        decreases src.len() - i,
    {
        dst.push(src[i]);
        i = i + 1;
        assert(dst@ =~= old(dst)@ + src@.subrange(0, i as int));
    }
    assert(src@.subrange(0, src@.len() as int) =~= src@);
}

} // verus!
