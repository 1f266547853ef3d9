//! The 32-bit xxHash digest with seed zero.

use vstd::prelude::*;
use vstd::wrapping::u32_specs;

verus! {

pub const PRIME32_1: u32 = 2654435761;

pub const PRIME32_2: u32 = 2246822519;

pub const PRIME32_3: u32 = 3266489917;

pub const PRIME32_4: u32 = 668265263;

pub const PRIME32_5: u32 = 374761393;

/// Addition modulo 2^32.
pub open spec fn wadd(a: u32, b: u32) -> u32 {
    u32_specs::wrapping_add(a, b)
}

/// Multiplication modulo 2^32.
pub open spec fn wmul(a: u32, b: u32) -> u32 {
    u32_specs::wrapping_mul(a, b)
}

/// Rotation to the left by `r` bits, for `0 < r < 32`.
#[verifier::opaque]
pub open spec fn rotl(x: u32, r: u32) -> u32 {
    (x << r) | (x >> (32 - r) as u32)
}

/// The little-endian word that starts at byte `i`.
#[verifier::opaque]
pub open spec fn read32(d: Seq<u8>, i: int) -> u32 {
    (d[i] as u32) | ((d[i + 1] as u32) << 8u32) | ((d[i + 2] as u32) << 16u32) | ((d[i + 3] as u32)
        << 24u32)
}

/// One accumulator step over one input word.
#[verifier::opaque]
pub open spec fn round(acc: u32, input: u32) -> u32 {
    wmul(rotl(wadd(acc, wmul(input, PRIME32_2)), 13), PRIME32_1)
}

/// The four accumulators after the first `n` stripes of 16 bytes.
pub open spec fn lanes(d: Seq<u8>, n: nat) -> (u32, u32, u32, u32)
    decreases n,
{
    if n == 0 {
        (606290984u32, PRIME32_2, 0u32, 1640531535u32)
    } else {
        let (a, b, c, e) = lanes(d, (n - 1) as nat);
        let s = 16 * (n - 1);
        (
            round(a, read32(d, s)),
            round(b, read32(d, s + 4)),
            round(c, read32(d, s + 8)),
            round(e, read32(d, s + 12)),
        )
    }
}

/// The accumulators merged into one word.
pub open spec fn converge(l: (u32, u32, u32, u32)) -> u32 {
    wadd(wadd(wadd(rotl(l.0, 1), rotl(l.1, 7)), rotl(l.2, 12)), rotl(l.3, 18))
}

/// `h` after the `n` words that start at byte `start`.
pub open spec fn tail_words(d: Seq<u8>, h: u32, start: int, n: nat) -> u32
    decreases n,
{
    if n == 0 {
        h
    } else {
        let g = tail_words(d, h, start, (n - 1) as nat);
        wmul(rotl(wadd(g, wmul(read32(d, start + 4 * (n - 1)), PRIME32_3)), 17), PRIME32_4)
    }
}

/// `h` after the `n` single bytes that start at byte `start`.
pub open spec fn tail_bytes(d: Seq<u8>, h: u32, start: int, n: nat) -> u32
    decreases n,
{
    if n == 0 {
        h
    } else {
        let g = tail_bytes(d, h, start, (n - 1) as nat);
        wmul(rotl(wadd(g, wmul(d[start + n - 1] as u32, PRIME32_5)), 11), PRIME32_1)
    }
}

/// The final mixing of the digest.
#[verifier::opaque]
pub open spec fn avalanche(h: u32) -> u32 {
    let h1 = wmul(h ^ (h >> 15u32), PRIME32_2);
    let h2 = wmul(h1 ^ (h1 >> 13u32), PRIME32_3);
    h2 ^ (h2 >> 16u32)
}

/// The xxHash32 digest of `d` with seed zero.
pub open spec fn xxh32(d: Seq<u8>) -> u32 {
    let len = d.len();
    let stripes = len / 16;
    let h0 = if len >= 16 {
        converge(lanes(d, stripes))
    } else {
        PRIME32_5
    };
    let h1 = wadd(h0, len as u32);
    let tail = 16 * stripes;
    let nw = ((len - tail) / 4) as nat;
    let h2 = tail_words(d, h1, tail as int, nw);
    let nb = ((len - tail) % 4) as nat;
    avalanche(tail_bytes(d, h2, (tail + 4 * nw) as int, nb))
}

fn rotl_exec(x: u32, r: u32) -> (y: u32)
    requires
        0 < r < 32,
    ensures
        y == rotl(x, r),
{
    reveal(rotl);
    (x << r) | (x >> (32 - r))
}

fn read32_exec(d: &[u8], i: usize) -> (w: u32)
    requires
        i + 4 <= d@.len(),
    ensures
        w == read32(d@, i as int),
{
    reveal(read32);
    (d[i] as u32) | ((d[i + 1] as u32) << 8u32) | ((d[i + 2] as u32) << 16u32) | ((d[i + 3] as u32)
        << 24u32)
}

fn round_exec(acc: u32, input: u32) -> (r: u32)
    ensures
        r == round(acc, input),
{
    reveal(round);
    rotl_exec(acc.wrapping_add(input.wrapping_mul(PRIME32_2)), 13).wrapping_mul(PRIME32_1)
}

fn avalanche_exec(h: u32) -> (r: u32)
    ensures
        r == avalanche(h),
{
    reveal(avalanche);
    let h1 = (h ^ (h >> 15u32)).wrapping_mul(PRIME32_2);
    let h2 = (h1 ^ (h1 >> 13u32)).wrapping_mul(PRIME32_3);
    h2 ^ (h2 >> 16u32)
}

/// The accumulators over all whole stripes of `data`.
fn stripes_exec(data: &[u8]) -> (l: (u32, u32, u32, u32))
    ensures
        l == lanes(data@, data@.len() / 16),
{
    let len = data.len();
    let mut i: usize = 0;
    let mut v1: u32 = 606290984;
    let mut v2: u32 = PRIME32_2;
    let mut v3: u32 = 0;
    let mut v4: u32 = 1640531535;
    let ghost mut k: nat = 0;
    while len - i >= 16
        invariant
            len == data@.len(),
            i == 16 * k,
            i <= len,
            (v1, v2, v3, v4) == lanes(data@, k),
        decreases len - i,
    {
        proof {
            reveal_with_fuel(lanes, 2);
        }
        v1 = round_exec(v1, read32_exec(data, i));
        v2 = round_exec(v2, read32_exec(data, i + 4));
        v3 = round_exec(v3, read32_exec(data, i + 8));
        v4 = round_exec(v4, read32_exec(data, i + 12));
        i = i + 16;
        proof {
            k = k + 1;
        }
    }
    (v1, v2, v3, v4)
}

/// `h` after the whole words of `data` from `start` on.
fn words_exec(data: &[u8], h: u32, start: usize) -> (r: (u32, usize))
    requires
        start <= data@.len(),
    ensures
        r.1 == start + 4 * ((data@.len() - start) / 4),
        r.0 == tail_words(data@, h, start as int, ((data@.len() - start) / 4) as nat),
{
    let len = data.len();
    let mut i: usize = start;
    let mut g: u32 = h;
    let ghost mut n: nat = 0;
    while len - i >= 4
        invariant
            len == data@.len(),
            start <= i <= len,
            i == start + 4 * n,
            g == tail_words(data@, h, start as int, n),
        decreases len - i,
    {
        let w = read32_exec(data, i);
        g = rotl_exec(g.wrapping_add(w.wrapping_mul(PRIME32_3)), 17).wrapping_mul(PRIME32_4);
        i = i + 4;
        proof {
            n = n + 1;
        }
    }
    (g, i)
}

/// `h` after the single bytes of `data` from `start` on.
fn bytes_exec(data: &[u8], h: u32, start: usize) -> (r: u32)
    requires
        start <= data@.len(),
    ensures
        r == tail_bytes(data@, h, start as int, (data@.len() - start) as nat),
{
    let len = data.len();
    let mut i: usize = start;
    let mut g: u32 = h;
    while i < len
        invariant
            len == data@.len(),
            start <= i <= len,
            g == tail_bytes(data@, h, start as int, (i - start) as nat),
        decreases len - i,
    {
        g = rotl_exec(g.wrapping_add((data[i] as u32).wrapping_mul(PRIME32_5)), 11).wrapping_mul(
            PRIME32_1,
        );
        i = i + 1;
    }
    g
}

/// Computes the xxHash32 digest of `data` with seed zero.
pub fn xx_hash32(data: &[u8]) -> (r: u32)
    ensures
        r == xxh32(data@),
{
    let len = data.len();
    let h0 = if len >= 16 {
        let (v1, v2, v3, v4) = stripes_exec(data);
        rotl_exec(v1, 1).wrapping_add(rotl_exec(v2, 7)).wrapping_add(rotl_exec(v3, 12)).wrapping_add(
            rotl_exec(v4, 18),
        )
    } else {
        PRIME32_5
    };
    let tail = (len / 16) * 16;
    let h1 = h0.wrapping_add(len as u32);
    let (h2, after) = words_exec(data, h1, tail);
    assert((len - tail) % 4 == len - after) by (nonlinear_arith)
        requires
            after == tail + 4 * ((len - tail) / 4),
            tail <= len,
    ;
    let h3 = bytes_exec(data, h2, after);
    avalanche_exec(h3)
}

} // verus!
