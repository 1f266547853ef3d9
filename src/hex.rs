//! Fixed-width lowercase hexadecimal text of a digest.

use vstd::prelude::*;
use vstd::string::*;

verus! {

/// The sixteen lowercase hexadecimal digits, in order of value.
pub open spec fn hex_digits() -> Seq<char> {
    seq!['0', '1', '2', '3', '4', '5', '6', '7', '8', '9', 'a', 'b', 'c', 'd', 'e', 'f']
}

/// The value of the `i`-th hexadecimal digit of `n`, counted from the most
/// significant of eight.
pub open spec fn nibble(n: u32, i: int) -> u32 {
    (n >> ((28 - 4 * i) as u32)) & 15u32
}

/// `n` written as exactly eight lowercase hexadecimal digits, most
/// significant first, with leading zeros.
pub open spec fn hex8(n: u32) -> Seq<char> {
    Seq::new(8, |i: int| hex_digits()[nibble(n, i) as int])
}

proof fn lemma_nibble_bound(n: u32, s: u32)
    ensures
        (n >> s) & 15u32 < 16,
{
    assert((n >> s) & 15u32 < 16) by (bit_vector);
}

/// Writes `n` as eight lowercase hexadecimal digits.
pub fn to_hex8(n: u32) -> (r: String)
    ensures
        r@ == hex8(n),
{
    let digits: &str = "0123456789abcdef";
    proof {
        reveal_strlit("0123456789abcdef");
        assert(digits@ =~= hex_digits());
    }
    let mut r = String::new();
    let mut i: usize = 0;
    while i < 8
        invariant
            i <= 8,
            digits@ == hex_digits(),
            r@ =~= hex8(n).subrange(0, i as int),
        decreases 8 - i,
    {
        let shift: u32 = 28 - 4 * (i as u32);
        let d = (n >> shift) & 15u32;
        proof {
            lemma_nibble_bound(n, shift);
        }
        let c = digits.substring_char(d as usize, d as usize + 1);
        r.append(c);
        proof {
            assert(c@ =~= seq![hex_digits()[d as int]]);
            assert(hex8(n).subrange(0, i + 1) =~= hex8(n).subrange(0, i as int) + c@);
        }
        i = i + 1;
    }
    r
}

} // verus!
