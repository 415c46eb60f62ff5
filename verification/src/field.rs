//! Arithmetic in GF(2^8), the field of 256 elements in which bytes are read
//! as polynomials over GF(2) modulo `x^8 + x^4 + x^3 + x + 1`.

use vstd::prelude::*;

verus! {

/// The product of `a` and the polynomial `x`, reduced into the field.
pub open spec fn xtime(a: u8) -> u8 {
    if a & 0x80 == 0x80 {
        (a << 1) ^ 0x1b
    } else {
        a << 1
    }
}

/// The product of `a` and the low `n` bits of `b`: the sum (exclusive or) of
/// `a * x^i` over each set bit `i < n` of `b`.
pub open spec fn gf_mul_bits(a: u8, b: u8, n: nat) -> u8
    decreases n,
{
    if n == 0 {
        0
    } else {
        let rest = gf_mul_bits(xtime(a), b >> 1, (n - 1) as nat);
        if b & 1 == 1 {
            a ^ rest
        } else {
            rest
        }
    }
}

/// The product of `a` and `b` in the field.
pub open spec fn gf_mul(a: u8, b: u8) -> u8 {
    gf_mul_bits(a, b, 8)
}

/// Multiplies a field element by `x`.
pub fn double(a: u8) -> (r: u8)
    ensures
        r == xtime(a),
{
    if a & 0x80 == 0x80 {
        (a << 1) ^ 0x1b
    } else {
        a << 1
    }
}

proof fn lemma_xor_basics(p: u8, a: u8, r: u8)
    by (bit_vector)
    ensures
        0u8 ^ p == p,
        p ^ 0u8 == p,
        (p ^ a) ^ r == p ^ (a ^ r),
{
}

/// Multiplies two field elements.
pub fn gmul(mul_a: u8, mul_b: u8) -> (product: u8)
    ensures
        product == gf_mul(mul_a, mul_b),
{
    let mut a = mul_a;
    let mut b = mul_b;
    let mut product = 0u8;
    let mut i: u8 = 0;
    proof {
        lemma_xor_basics(gf_mul(mul_a, mul_b), 0, 0);
    }
    while i < 8
        invariant
            i <= 8,
            product ^ gf_mul_bits(a, b, (8 - i) as nat) == gf_mul(mul_a, mul_b),
        decreases 8 - i,
    {
        proof {
            lemma_xor_basics(product, a, gf_mul_bits(xtime(a), b >> 1, (7 - i) as nat));
        }
        if (b & 1) == 1 {
            product ^= a;
        }
        a = double(a);
        b >>= 1;
        i += 1;
    }
    proof {
        lemma_xor_basics(product, 0, 0);
    }
    product
}

proof fn test_bv(a: u8)
    by (bit_vector)
    ensures
        gf_mul(a, 2) == xtime(a),
        gf_mul(a, 1) == a,
        gf_mul(a, 0) == 0,
{
}

} // verus!
