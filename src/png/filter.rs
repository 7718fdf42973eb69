//! Per-scanline filters: the five predictors, their removal and application.
use vstd::prelude::*;

verus! {

/// The filter a scanline was written with; any unknown tag reads as `Unsupported`.
#[derive(Debug, Clone, Copy, PartialEq, Eq, Structural)]
pub enum FilterType {
    NoFilter,
    Sub,
    Up,
    Average,
    Paeth,
    Unsupported,
}

/// The filter type that a tag byte names.
pub open spec fn filter_of(val: u8) -> FilterType {
    if val == 0 {
        FilterType::NoFilter
    } else if val == 1 {
        FilterType::Sub
    } else if val == 2 {
        FilterType::Up
    } else if val == 3 {
        FilterType::Average
    } else if val == 4 {
        FilterType::Paeth
    } else {
        FilterType::Unsupported
    }
}

impl FilterType {
    /// The filter type that a tag byte names.
    pub fn from_byte(val: u8) -> (f: FilterType)
        ensures
            f == filter_of(val),
    {
        match val {
            0 => FilterType::NoFilter,
            1 => FilterType::Sub,
            2 => FilterType::Up,
            3 => FilterType::Average,
            4 => FilterType::Paeth,
            _ => FilterType::Unsupported,
        }
    }

    /// The tag byte of a filter type (`Unsupported` writes as 255).
    pub fn tag(&self) -> (b: u8)
        ensures
            *self != FilterType::Unsupported ==> filter_of(b) == *self,
    {
        match self {
            FilterType::NoFilter => 0,
            FilterType::Sub => 1,
            FilterType::Up => 2,
            FilterType::Average => 3,
            FilterType::Paeth => 4,
            FilterType::Unsupported => 255,
        }
    }
}

pub open spec fn abs_diff(x: int, y: int) -> int {
    if x >= y { x - y } else { y - x }
}

/// The Paeth predictor: of `a`, `b`, `c`, the one nearest to `a + b - c`,
/// ties going to `a`, then `b`.
pub open spec fn paeth(a: u8, b: u8, c: u8) -> u8 {
    let p = a as int + b as int - c as int;
    let pa = abs_diff(p, a as int);
    let pb = abs_diff(p, b as int);
    let pc = abs_diff(p, c as int);
    if pa <= pb && pa <= pc { a } else if pb <= pc { b } else { c }
}

/// The value predicted for byte `j` of a row, from the bytes of the row
/// before `j` (`row`) and the previous row (`prev`).
pub open spec fn predictor(ft: FilterType, row: Seq<u8>, prev: Seq<u8>, j: int, bpp: nat) -> u8 {
    match ft {
        FilterType::Sub => if j >= bpp { row[j - bpp] } else { 0 },
        FilterType::Up => prev[j],
        FilterType::Average => (((if j > bpp { row[j - bpp] } else { 0u8 }) as int + prev[j] as int) / 2) as u8,
        FilterType::Paeth => paeth(
            if j >= bpp { row[j - bpp] } else { 0 },
            prev[j],
            if j >= bpp { prev[j - bpp] } else { 0 },
        ),
        _ => 0,
    }
}

pub open spec fn add_mod(x: u8, y: u8) -> u8 {
    ((x as int + y as int) % 256) as u8
}

pub open spec fn sub_mod(x: u8, y: u8) -> u8 {
    ((x as int - y as int + 256) % 256) as u8
}

/// The first `n` bytes reconstructed from the filtered row `f`.
pub open spec fn unfiltered_prefix(ft: FilterType, f: Seq<u8>, prev: Seq<u8>, bpp: nat, n: nat) -> Seq<u8>
    decreases n,
{
    if n == 0 {
        seq![]
    } else {
        let r = unfiltered_prefix(ft, f, prev, bpp, (n - 1) as nat);
        r.push(add_mod(f[n - 1], predictor(ft, r, prev, n - 1, bpp)))
    }
}

/// The row reconstructed from the filtered row `f`.
pub open spec fn unfilter_row(ft: FilterType, f: Seq<u8>, prev: Seq<u8>, bpp: nat) -> Seq<u8> {
    unfiltered_prefix(ft, f, prev, bpp, f.len())
}

/// The row `row` filtered with `ft`.
pub open spec fn filter_row(ft: FilterType, row: Seq<u8>, prev: Seq<u8>, bpp: nat) -> Seq<u8> {
    Seq::new(row.len(), |j: int| sub_mod(row[j], predictor(ft, row, prev, j, bpp)))
}

/// The Paeth predictor.
pub fn paeth_predictor(a: u8, b: u8, c: u8) -> (r: u8)
    ensures
        r == paeth(a, b, c),
{
    let p: i32 = a as i32 + b as i32 - c as i32;
    let pa: i32 = if p >= a as i32 { p - a as i32 } else { a as i32 - p };
    let pb: i32 = if p >= b as i32 { p - b as i32 } else { b as i32 - p };
    let pc: i32 = if p >= c as i32 { p - c as i32 } else { c as i32 - p };
    if pa <= pb && pa <= pc {
        a
    } else if pb <= pc {
        b
    } else {
        c
    }
}

fn predict(ft: FilterType, row: &[u8], prev: &[u8], j: usize, bpp: usize) -> (r: u8)
    requires
        j < row@.len(),
        j < prev@.len(),
        bpp >= 1,
    ensures
        r == predictor(ft, row@, prev@, j as int, bpp as nat),
{
    match ft {
        FilterType::Sub => if j >= bpp { row[j - bpp] } else { 0 },
        FilterType::Up => prev[j],
        FilterType::Average => {
            let a: u8 = if j > bpp { row[j - bpp] } else { 0 };
            ((a as u32 + prev[j] as u32) / 2) as u8
        },
        FilterType::Paeth => {
            let a: u8 = if j >= bpp { row[j - bpp] } else { 0 };
            let c: u8 = if j >= bpp { prev[j - bpp] } else { 0 };
            paeth_predictor(a, prev[j], c)
        },
        _ => 0,
    }
}

proof fn lemma_predictor_prefix(ft: FilterType, row: Seq<u8>, other: Seq<u8>, prev: Seq<u8>, j: int, bpp: nat)
    requires
        bpp >= 1,
        0 <= j,
        j <= row.len(),
        j <= other.len(),
        row.subrange(0, j) == other.subrange(0, j),
    ensures
        predictor(ft, row, prev, j, bpp) == predictor(ft, other, prev, j, bpp),
{
    if j >= bpp {
        assert(row[j - bpp] == row.subrange(0, j)[j - bpp]);
        assert(other[j - bpp] == other.subrange(0, j)[j - bpp]);
    }
}

/// Undoes the filter of one scanline in place, using the previous
/// reconstructed scanline; an unknown filter leaves the row as it is.
pub fn remove_filter(current_row: &mut Vec<u8>, previous_row: &[u8], filter_type: FilterType, bpp: usize)
    requires
        bpp >= 1,
        previous_row@.len() >= old(current_row)@.len(),
    ensures
        final(current_row)@ == unfilter_row(filter_type, old(current_row)@, previous_row@, bpp as nat),
{
    let ghost f = old(current_row)@;
    let n = current_row.len();
    let mut j: usize = 0;
    while j < n
        invariant
            bpp >= 1,
            n == f.len(),
            j <= n,
            previous_row@.len() >= n,
            current_row@.len() == n,
            current_row@.subrange(0, j as int) == unfiltered_prefix(filter_type, f, previous_row@, bpp as nat, j as nat),
            current_row@.subrange(j as int, n as int) == f.subrange(j as int, n as int),
        decreases n - j,
    {
        let ghost r = unfiltered_prefix(filter_type, f, previous_row@, bpp as nat, j as nat);
        let p = predict(filter_type, current_row.as_slice(), previous_row, j, bpp);
        proof {
            lemma_unfiltered_len(filter_type, f, previous_row@, bpp as nat, j as nat);
            assert(r.subrange(0, j as int) =~= r);
            lemma_predictor_prefix(filter_type, current_row@, r, previous_row@, j as int, bpp as nat);
            assert(current_row@[j as int] == f.subrange(j as int, n as int)[0]);
        }
        let v: u8 = ((current_row[j] as u16 + p as u16) % 256) as u8;
        let ghost before = current_row@;
        current_row.set(j, v);
        j = j + 1;
        proof {
            assert(current_row@.subrange(0, j as int) =~= r.push(v));
            assert forall|k: int| 0 <= k < n - j implies current_row@.subrange(j as int, n as int)[k] == f.subrange(j as int, n as int)[k] by {
                assert(current_row@[j + k] == before[j + k]);
                assert(before.subrange(j - 1, n as int)[k + 1] == before[j + k]);
            }
            assert(current_row@.subrange(j as int, n as int) =~= f.subrange(j as int, n as int));
        }
    }
    assert(current_row@ =~= current_row@.subrange(0, n as int));
}

pub proof fn lemma_unfiltered_len(ft: FilterType, f: Seq<u8>, prev: Seq<u8>, bpp: nat, n: nat)
    ensures
        unfiltered_prefix(ft, f, prev, bpp, n).len() == n,
    decreases n,
{
    if n > 0 {
        lemma_unfiltered_len(ft, f, prev, bpp, (n - 1) as nat);
    }
}

pub proof fn lemma_unfilter_row_len(ft: FilterType, f: Seq<u8>, prev: Seq<u8>, bpp: nat)
    ensures
        unfilter_row(ft, f, prev, bpp).len() == f.len(),
{
    lemma_unfiltered_len(ft, f, prev, bpp, f.len());
}

/// Filters one scanline with `filter_type`, against the previous scanline.
pub fn apply_filter(row: &[u8], previous_row: &[u8], filter_type: FilterType, bpp: usize) -> (r: Vec<u8>)
    requires
        bpp >= 1,
        previous_row@.len() >= row@.len(),
    ensures
        r@ == filter_row(filter_type, row@, previous_row@, bpp as nat),
{
    let mut out: Vec<u8> = Vec::with_capacity(row.len());
    let mut j: usize = 0;
    while j < row.len()
        invariant
            bpp >= 1,
            j <= row@.len(),
            previous_row@.len() >= row@.len(),
            out@ =~= filter_row(filter_type, row@, previous_row@, bpp as nat).subrange(0, j as int),
        decreases row.len() - j,
    {
        let p = predict(filter_type, row, previous_row, j, bpp);
        out.push(((row[j] as u16 + 256 - p as u16) % 256) as u8);
        j = j + 1;
    }
    out
}

/// Removing a filter undoes applying it: for each filter type, every row
/// and previous row, and every `bpp >= 1`, filtering a row and then
/// reconstructing it gives the row back byte for byte.
pub proof fn lemma_filter_round_trip(ft: FilterType, row: Seq<u8>, prev: Seq<u8>, bpp: nat)
    requires
        bpp >= 1,
        prev.len() >= row.len(),
    ensures
        unfilter_row(ft, filter_row(ft, row, prev, bpp), prev, bpp) == row,
{
    let f = filter_row(ft, row, prev, bpp);
    lemma_filter_round_trip_prefix(ft, row, prev, bpp, row.len());
    assert(row.subrange(0, row.len() as int) =~= row);
}

proof fn lemma_filter_round_trip_prefix(ft: FilterType, row: Seq<u8>, prev: Seq<u8>, bpp: nat, n: nat)
    requires
        bpp >= 1,
        prev.len() >= row.len(),
        n <= row.len(),
    ensures
        unfiltered_prefix(ft, filter_row(ft, row, prev, bpp), prev, bpp, n) == row.subrange(0, n as int),
    decreases n,
{
    let f = filter_row(ft, row, prev, bpp);
    if n == 0 {
        assert(row.subrange(0, 0) =~= seq![]);
    } else {
        let m = (n - 1) as nat;
        lemma_filter_round_trip_prefix(ft, row, prev, bpp, m);
        let r = unfiltered_prefix(ft, f, prev, bpp, m);
        assert(r == row.subrange(0, m as int));
        assert(r.subrange(0, m as int) =~= row.subrange(0, m as int));
        lemma_predictor_prefix(ft, r, row, prev, m as int, bpp);
        let p = predictor(ft, row, prev, m as int, bpp);
        assert(f[m as int] == sub_mod(row[m as int], p));
        assert(add_mod(sub_mod(row[m as int], p), p) == row[m as int]);
        assert(r.push(row[m as int]) =~= row.subrange(0, n as int));
    }
}

} // verus!
