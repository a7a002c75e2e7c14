//! Field-element arithmetic for the constraint evaluator.
//!
//! Elements of the base field are carried as canonical residues: plain `u64`
//! values strictly below [`FIELD_MODULUS`]. Every operation states its result
//! as exact modular arithmetic over the mathematical integers.

use vstd::prelude::*;
use vstd::arithmetic::power::{
    pow, lemma_pow0, lemma_pow1, lemma_pow_adds, lemma_pow_mod_noop, lemma_pow_multiplies,
    lemma_pow_positive, lemma_square_is_pow2,
};
use vstd::arithmetic::div_mod::{
    lemma_add_mod_noop, lemma_div_denominator, lemma_mul_mod_noop_general, lemma_small_mod,
};

verus! {

/// The prime modulus of the base field: 2^64 - 2^32 + 1.
pub const FIELD_MODULUS: u64 = 0xffff_ffff_0000_0001;

/// A canonical field element: a residue strictly below the modulus.
pub open spec fn is_felt(a: u64) -> bool {
    a < FIELD_MODULUS
}

/// Every entry of the sequence is a canonical field element.
pub open spec fn all_felts(s: Seq<u64>) -> bool {
    forall|i: int| 0 <= i < s.len() ==> is_felt(#[trigger] s[i])
}

pub open spec fn felt_add_spec(a: u64, b: u64) -> u64 {
    ((a as int + b as int) % (FIELD_MODULUS as int)) as u64
}

pub open spec fn felt_sub_spec(a: u64, b: u64) -> u64 {
    ((a as int - b as int + FIELD_MODULUS as int) % (FIELD_MODULUS as int)) as u64
}

pub open spec fn felt_mul_spec(a: u64, b: u64) -> u64 {
    ((a as int * b as int) % (FIELD_MODULUS as int)) as u64
}

pub open spec fn felt_exp_spec(b: u64, e: u64) -> u64 {
    (pow(b as int, e as nat) % (FIELD_MODULUS as int)) as u64
}

/// The multiplicative inverse of a nonzero element, computed as the power
/// prescribed by Fermat's little theorem.
pub open spec fn felt_inv_spec(a: u64) -> u64 {
    felt_exp_spec(a, (FIELD_MODULUS - 2) as u64)
}

pub fn felt_add(a: u64, b: u64) -> (r: u64)
    requires
        is_felt(a),
        is_felt(b),
    ensures
        r == felt_add_spec(a, b),
        is_felt(r),
{
    let s: u128 = a as u128 + b as u128;
    let m: u128 = FIELD_MODULUS as u128;
    (s % m) as u64
}

pub fn felt_sub(a: u64, b: u64) -> (r: u64)
    requires
        is_felt(a),
        is_felt(b),
    ensures
        r == felt_sub_spec(a, b),
        is_felt(r),
{
    let d: u128 = a as u128 + FIELD_MODULUS as u128 - b as u128;
    let m: u128 = FIELD_MODULUS as u128;
    (d % m) as u64
}

pub fn felt_mul(a: u64, b: u64) -> (r: u64)
    requires
        is_felt(a),
        is_felt(b),
    ensures
        r == felt_mul_spec(a, b),
        is_felt(r),
{
    proof {
        assert((a as int) * (b as int) < 0x1_0000_0000_0000_0000 * 0x1_0000_0000_0000_0000)
            by (nonlinear_arith)
            requires
                a < 0x1_0000_0000_0000_0000,
                b < 0x1_0000_0000_0000_0000,
        ;
    }
    let p: u128 = a as u128 * b as u128;
    let m: u128 = FIELD_MODULUS as u128;
    (p % m) as u64
}

/// Variable-time exponentiation by squaring. All operands here are public
/// values of the verification protocol, so a data-dependent running time is
/// acceptable.
pub fn felt_exp(b: u64, e: u64) -> (r: u64)
    requires
        is_felt(b),
    ensures
        r == felt_exp_spec(b, e),
        is_felt(r),
{
    let ghost m: int = FIELD_MODULUS as int;
    let mut result: u64 = 1;
    let mut base: u64 = b;
    let mut exp: u64 = e;
    proof {
        lemma_pow0(b as int);
    }
    while exp > 0
        invariant
            is_felt(result),
            is_felt(base),
            m == FIELD_MODULUS as int,
            (result as int * pow(base as int, exp as nat)) % m
                == pow(b as int, e as nat) % m,
        decreases exp,
    {
        let ghost r0: int = result as int;
        let ghost b0: int = base as int;
        let ghost e0: nat = exp as nat;
        if exp % 2 == 1 {
            result = felt_mul(result, base);
            proof {
                // result' * pow(base, exp - 1) == result * pow(base, exp)  (mod m)
                assert(pow(b0, e0) == b0 * pow(b0, (e0 - 1) as nat)) by {
                    lemma_pow1(b0);
                    lemma_pow_adds(b0, 1nat, (e0 - 1) as nat);
                };
                assert((result as int * pow(b0, (e0 - 1) as nat)) % m
                    == (r0 * pow(b0, e0)) % m) by {
                    lemma_mul_mod_noop_general(r0 * b0, pow(b0, (e0 - 1) as nat), m);
                    lemma_mul_mod_noop_general(r0, b0 * pow(b0, (e0 - 1) as nat), m);
                    assert(r0 * (b0 * pow(b0, (e0 - 1) as nat))
                        == (r0 * b0) * pow(b0, (e0 - 1) as nat)) by {
                        vstd::arithmetic::mul::lemma_mul_is_associative(
                            r0, b0, pow(b0, (e0 - 1) as nat));
                    };
                };
            }
            exp = exp - 1;
        }
        let ghost r1: int = result as int;
        let ghost e1: nat = exp as nat;
        assert((r1 * pow(b0, e1)) % m == pow(b as int, e as nat) % m);
        base = felt_mul(base, base);
        exp = exp / 2;
        proof {
            // pow(b0, e1) == pow(b0 * b0, e1 / 2) since e1 is even
            assert(e1 == 2 * (e1 / 2));
            lemma_pow_multiplies(b0, 2nat, (e1 / 2) as nat);
            lemma_square_is_pow2(b0);
            assert(pow(b0, e1) == pow(b0 * b0, (e1 / 2) as nat));
            // reduce the new base modulo m
            lemma_pow_mod_noop(b0 * b0, (e1 / 2) as nat, m);
            assert(pow(base as int, exp as nat) % m == pow(b0 * b0, (e1 / 2) as nat) % m);
            lemma_mul_mod_noop_general(r1, pow(base as int, exp as nat), m);
            lemma_mul_mod_noop_general(r1, pow(b0 * b0, (e1 / 2) as nat), m);
        }
    }
    proof {
        lemma_pow0(base as int);
        lemma_small_mod(result as nat, FIELD_MODULUS as nat);
    }
    result
}

/// Multiplicative inverse of a nonzero element by Fermat exponentiation.
pub fn felt_inv(a: u64) -> (r: u64)
    requires
        is_felt(a),
    ensures
        r == felt_inv_spec(a),
        is_felt(r),
{
    felt_exp(a, FIELD_MODULUS - 2)
}

/// Addition of canonical field elements is associative.
pub proof fn lemma_felt_add_assoc(a: u64, b: u64, c: u64)
    requires
        is_felt(a),
        is_felt(b),
        is_felt(c),
    ensures
        felt_add_spec(felt_add_spec(a, b), c) == felt_add_spec(a, felt_add_spec(b, c)),
{
    let m = FIELD_MODULUS as int;
    lemma_small_mod(a as nat, FIELD_MODULUS as nat);
    lemma_small_mod(c as nat, FIELD_MODULUS as nat);
    lemma_add_mod_noop(a as int + b, c as int, m);
    lemma_add_mod_noop(a as int, b as int + c, m);
}

/// Horner evaluation of a polynomial given by its coefficients, lowest
/// degree first.
pub open spec fn poly_eval_spec(p: Seq<u64>, x: u64) -> u64
    decreases p.len(),
{
    if p.len() == 0 {
        0u64
    } else {
        felt_add_spec(p[0], felt_mul_spec(x, poly_eval_spec(p.drop_first(), x)))
    }
}

pub fn poly_eval(p: &Vec<u64>, x: u64) -> (r: u64)
    requires
        all_felts(p@),
        is_felt(x),
    ensures
        r == poly_eval_spec(p@, x),
        is_felt(r),
{
    let mut result: u64 = 0;
    let mut i: usize = p.len();
    while i > 0
        invariant
            all_felts(p@),
            is_felt(x),
            is_felt(result),
            i <= p.len(),
            result == poly_eval_spec(p@.skip(i as int), x),
        decreases i,
    {
        i = i - 1;
        proof {
            assert(p@.skip(i as int)[0] == p@[i as int]);
            assert(p@.skip(i as int).drop_first() =~= p@.skip(i as int + 1));
        }
        result = felt_add(p[i], felt_mul(x, result));
    }
    proof {
        assert(p@.skip(0) =~= p@);
    }
    result
}

/// The byte at position `k` of the little-endian rendering of `v`.
pub open spec fn le_byte_spec(v: u64, k: int) -> u8 {
    ((v as int / pow(256, k as nat)) % 256) as u8
}

/// The eight bytes of `v`, least significant first.
pub open spec fn u64_le_bytes_spec(v: u64) -> Seq<u8> {
    Seq::new(8, |k: int| le_byte_spec(v, k))
}

pub fn u64_le_bytes(v: u64) -> (r: Vec<u8>)
    ensures
        r@ == u64_le_bytes_spec(v),
{
    let mut r: Vec<u8> = Vec::new();
    let mut tmp: u64 = v;
    let mut k: usize = 0;
    proof {
        lemma_pow0(256);
    }
    while k < 8
        invariant
            r@.len() == k,
            k <= 8,
            tmp as int == v as int / pow(256, k as nat),
            forall|j: int| 0 <= j < k ==> r@[j] == le_byte_spec(v, j),
        decreases 8 - k,
    {
        r.push((tmp % 256) as u8);
        proof {
            lemma_pow_positive(256, k as nat);
            lemma_div_denominator(v as int, pow(256, k as nat), 256);
            assert(pow(256, (k + 1) as nat) == 256 * pow(256, k as nat)) by {
                lemma_pow1(256);
                lemma_pow_adds(256, 1nat, k as nat);
            };
        }
        tmp = tmp / 256;
        k = k + 1;
    }
    proof {
        assert(r@ =~= u64_le_bytes_spec(v));
    }
    r
}

} // verus!
