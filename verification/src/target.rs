//! The daily target: a number of litres that the daemon keeps and hands back as
//! it came, as the bit pattern of a double-precision number.
use vstd::arithmetic::power2::{
    lemma2_to64_rest, lemma_pow2_adds, lemma_pow2_pos, lemma_pow2_strictly_increases,
    lemma_pow2_unfold, pow2,
};
use vstd::prelude::*;

verus! {

/// The bit pattern of forty.
pub const FORTY: u64 = 0x4044_0000_0000_0000;

/// The bit pattern of ten thousand.
pub const TEN_THOUSAND: u64 = 0x40c3_8800_0000_0000;

/// A bit pattern without its sign.
pub open spec fn unsigned_bits(bits: u64) -> int {
    if bits >= 0x8000_0000_0000_0000 {
        bits - 0x8000_0000_0000_0000
    } else {
        bits as int
    }
}

/// Whether the bit pattern denotes no number.
pub open spec fn is_nan(bits: u64) -> bool {
    unsigned_bits(bits) > 0x7ff0_0000_0000_0000
}

/// The size of the number that unsigned bits denote, in units of 2^-1074, of which
/// every such number is a multiple. An infinity counts as 2^1024.
pub open spec fn size(unsigned: int) -> int {
    let exponent = unsigned / 0x10_0000_0000_0000;
    let fraction = unsigned % 0x10_0000_0000_0000;
    if exponent == 0 {
        fraction
    } else {
        (0x10_0000_0000_0000 + fraction) * pow2((exponent - 1) as nat)
    }
}

/// The number that a bit pattern denotes, in units of 2^-1074.
pub open spec fn number(bits: u64) -> int {
    if bits >= 0x8000_0000_0000_0000 {
        -size(unsigned_bits(bits))
    } else {
        size(unsigned_bits(bits))
    }
}

/// The number `n` in units of 2^-1074.
pub open spec fn units(n: int) -> int {
    n * pow2(1074)
}

/// Whether a bit pattern denotes a number outside 0 to 10000.
pub open spec fn out_of_range(bits: u64) -> bool {
    !is_nan(bits) && (number(bits) < 0 || number(bits) > units(10_000))
}

/// Of unsigned bits, the greater denote the greater number.
pub proof fn lemma_size_grows(a: int, b: int)
    requires
        0 <= a < b,
    ensures
        size(a) < size(b),
{
    let ea = a / 0x10_0000_0000_0000;
    let eb = b / 0x10_0000_0000_0000;
    let fa = a % 0x10_0000_0000_0000;
    let fb = b % 0x10_0000_0000_0000;
    if ea == eb {
        if ea > 0 {
            let p = pow2((ea - 1) as nat) as int;
            lemma_pow2_pos((ea - 1) as nat);
            assert((0x10_0000_0000_0000 + fa) * p < (0x10_0000_0000_0000 + fb) * p)
                by (nonlinear_arith)
                requires
                    fa < fb,
                    p > 0,
            ;
        }
    } else {
        let q = pow2((eb - 1) as nat) as int;
        lemma_pow2_pos((eb - 1) as nat);
        assert(size(b) >= 0x10_0000_0000_0000 * q) by (nonlinear_arith)
            requires
                size(b) == (0x10_0000_0000_0000 + fb) * q,
                fb >= 0,
                q > 0,
        ;
        if ea > 0 {
            let p = pow2((ea - 1) as nat) as int;
            lemma_pow2_pos((ea - 1) as nat);
            lemma_pow2_unfold(ea as nat);
            if ea < eb - 1 {
                lemma_pow2_strictly_increases(ea as nat, (eb - 1) as nat);
            }
            assert(2 * p <= q);
            assert((0x10_0000_0000_0000 + fa) * p < 0x10_0000_0000_0000 * (2 * p))
                by (nonlinear_arith)
                requires
                    fa < 0x10_0000_0000_0000,
                    p > 0,
            ;
        }
    }
}

/// The bit patterns of the two ends of the range denote 0 and 10000.
proof fn lemma_ends()
    ensures
        size(0) == units(0),
        size(TEN_THOUSAND as int) == units(10_000),
{
    lemma2_to64_rest();
    lemma_pow2_adds(39, 1035);
    assert(TEN_THOUSAND as int / 0x10_0000_0000_0000 == 1036);
    assert(0x10_0000_0000_0000 + TEN_THOUSAND as int % 0x10_0000_0000_0000 == 10_000 * pow2(39));
    assert((10_000 * pow2(39)) * pow2(1035) == 10_000 * (pow2(39) * pow2(1035)))
        by (nonlinear_arith);
}

/// Tells whether a bit pattern denotes a number outside 0 to 10000.
pub fn is_out_of_range(bits: u64) -> (yes: bool)
    ensures
        yes == out_of_range(bits),
{
    proof {
        lemma_ends();
        let u = unsigned_bits(bits);
        if u > 0 {
            lemma_size_grows(0, u);
        }
        if u > TEN_THOUSAND {
            lemma_size_grows(TEN_THOUSAND as int, u);
        }
        if u < TEN_THOUSAND {
            lemma_size_grows(u, TEN_THOUSAND as int);
        }
    }
    if bits > 0x8000_0000_0000_0000 {
        bits <= 0xfff0_0000_0000_0000
    } else if bits == 0x8000_0000_0000_0000 {
        false
    } else {
        bits > TEN_THOUSAND && bits <= 0x7ff0_0000_0000_0000
    }
}

/// The daily target where no other is given is forty litres.
pub proof fn forty_denotes_forty()
    ensures
        number(FORTY) == units(40),
{
    lemma2_to64_rest();
    lemma_pow2_adds(47, 1027);
    assert(FORTY as int / 0x10_0000_0000_0000 == 1028);
    assert(0x10_0000_0000_0000 + FORTY as int % 0x10_0000_0000_0000 == 40 * pow2(47));
    assert((40 * pow2(47)) * pow2(1027) == 40 * (pow2(47) * pow2(1027))) by (nonlinear_arith);
}

} // verus!
