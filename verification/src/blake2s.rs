//! BLAKE2s hashing with 256-bit and 192-bit output.
//!
//! Both widths run the identical algorithm: the 192-bit variant truncates
//! the full-width digest to its first 24 bytes after every operation, so it
//! is the truncation of the 256-bit primitive, not a distinct construction.
//! Field elements are hashed over one of two paths, chosen by the field's
//! capability flag: a canonical field's elements are hashed as one
//! contiguous buffer; otherwise each element is serialized into a fixed
//! 32-byte zero-padded slot first, for bit-exact interoperability with a
//! companion verifier consuming fixed-width word streams.

use vstd::prelude::*;
use vstd::arithmetic::div_mod::{
    lemma_div_pos_is_pos, lemma_fundamental_div_mod, lemma_fundamental_div_mod_converse_div,
    lemma_fundamental_div_mod_converse_mod, lemma_mod_bound,
};
use crate::digest::{ByteDigest, Digest};
use crate::felt::{le_byte_spec, u64_le_bytes, u64_le_bytes_spec};

verus! {

// TRUSTED VIEW OF THE OUTSIDE HASH
// ================================================================================================
/// What BLAKE2s with 32-byte output and an empty key returns for a byte
/// sequence: a function of the input bytes alone.
pub uninterp spec fn blake2s_of(bytes: Seq<u8>) -> Seq<u8>;

/// What a BLAKE2s streaming state has absorbed so far.
pub uninterp spec fn blake2s_absorbed(state: blake2_rfc::blake2s::Blake2s) -> Seq<u8>;

/// The streaming BLAKE2s state of the outside crate.
#[verifier::external_type_specification]
#[verifier::external_body]
pub struct ExBlake2s(blake2_rfc::blake2s::Blake2s);

/// Relies on `blake2_rfc::blake2s::blake2s` with 32-byte output length and
/// an empty key: the result depends on the input bytes alone and holds
/// exactly 32 bytes.
#[verifier::external_body]
fn blake2s_hash(bytes: &[u8]) -> (r: [u8; 32])
    ensures
        r@ == blake2s_of(bytes@),
{
    blake2_rfc::blake2s::blake2s(32, &[], bytes).as_bytes().try_into().expect(
        "BLAKE2s-256 digest is 32 bytes",
    )
}

/// Relies on `blake2_rfc::blake2s::Blake2s::new(32)`: a fresh state with
/// 32-byte output that has absorbed nothing.
#[verifier::external_body]
fn blake2s_state_new() -> (r: blake2_rfc::blake2s::Blake2s)
    ensures
        blake2s_absorbed(r) == Seq::<u8>::empty(),
{
    blake2_rfc::blake2s::Blake2s::new(32)
}

/// Relies on `Blake2s::update`: appends the data to what the state has
/// absorbed.
#[verifier::external_body]
fn blake2s_state_update(state: &mut blake2_rfc::blake2s::Blake2s, data: &[u8])
    ensures
        blake2s_absorbed(*final (state)) == blake2s_absorbed(*old(state)) + data@,
{
    state.update(data)
}

/// Relies on `Blake2s::finalize`, called on a clone so the state stays
/// usable, and on the source's equivalence of streaming and one-shot
/// hashing: the result is BLAKE2s-256 of everything absorbed.
#[verifier::external_body]
fn blake2s_state_finalize(state: &blake2_rfc::blake2s::Blake2s) -> (r: [u8; 32])
    ensures
        r@ == blake2s_of(blake2s_absorbed(*state)),
{
    state.clone().finalize().as_bytes().try_into().expect("BLAKE2s-256 digest is 32 bytes")
}

// HASHER TRAITS
// ================================================================================================
/// A cryptographic hash function: raw byte hashing, 2-to-1 merging for
/// Merkle-tree nodes, and seed-plus-counter hashing for PRNG and
/// proof-of-work derivation. All three operations are pure and total.
pub trait Hasher {
    /// The digest type this hasher returns.
    type Digest: Digest;

    /// The byte view of the digest returned for the given bytes.
    spec fn hash_spec(bytes: Seq<u8>) -> Seq<u8>;

    /// The byte view of the digest returned for two merged digests.
    spec fn merge_spec(a: Seq<u8>, b: Seq<u8>) -> Seq<u8>;

    /// The byte view of the digest returned for a seed and a counter.
    spec fn merge_with_int_spec(seed: Seq<u8>, value: u64) -> Seq<u8>;

    /// Hashes the given sequence of bytes.
    fn hash(bytes: &[u8]) -> (r: Self::Digest)
        ensures
            r@ == Self::hash_spec(bytes@),
    ;

    /// Hashes two digests into one, for Merkle tree construction.
    fn merge(values: &[Self::Digest; 2]) -> (r: Self::Digest)
        ensures
            r@ == Self::merge_spec(values@[0]@, values@[1]@),
    ;

    /// Hashes `seed` followed by the eight little-endian bytes of `value`.
    fn merge_with_int(seed: Self::Digest, value: u64) -> (r: Self::Digest)
        ensures
            r@ == Self::merge_with_int_spec(seed@, value),
    ;
}

/// Extends a hasher to sequences of field elements, carried as canonical
/// `u64` residues. The `canonical` flag is the field's capability: it says
/// whether elements' in-memory bytes already equal their canonical form, so
/// that the whole sequence can be hashed as one contiguous buffer; with it
/// false, each element is serialized into a fixed 32-byte zero-padded slot
/// and the slots are fed to a streaming accumulator in order.
pub trait ElementHasher: Hasher {
    /// The byte view of the digest returned for the given elements.
    spec fn hash_elements_spec(elements: Seq<u64>, canonical: bool) -> Seq<u8>;

    /// Hashes a sequence of field elements.
    fn hash_elements(elements: &Vec<u64>, canonical: bool) -> (r: Self::Digest)
        ensures
            r@ == Self::hash_elements_spec(elements@, canonical),
    ;
}

// ELEMENT BYTE LAYOUTS
// ================================================================================================
/// The canonical bytes of a run of elements laid out contiguously: eight
/// little-endian bytes per element.
pub open spec fn elements_le_bytes_spec(e: Seq<u64>) -> Seq<u8> {
    Seq::new((8 * e.len()) as nat, |i: int| le_byte_spec(e[i / 8], i % 8))
}

/// One element serialized into a 32-byte slot: its eight canonical bytes,
/// right-padded with zeros.
pub open spec fn slot_spec(v: u64) -> Seq<u8> {
    Seq::new(32, |k: int| if k < 8 { le_byte_spec(v, k) } else { 0u8 })
}

/// The 32-byte slots of a run of elements, in order.
pub open spec fn padded_slots_spec(e: Seq<u64>) -> Seq<u8> {
    Seq::new(
        (32 * e.len()) as nat,
        |i: int| if i % 32 < 8 { le_byte_spec(e[i / 32], i % 32) } else { 0u8 },
    )
}

proof fn lemma_elements_le_bytes_step(e: Seq<u64>, i: int)
    requires
        0 <= i < e.len(),
    ensures
        elements_le_bytes_spec(e.take(i + 1)) == elements_le_bytes_spec(e.take(i))
            + u64_le_bytes_spec(e[i]),
{
    let a = elements_le_bytes_spec(e.take(i + 1));
    let b = elements_le_bytes_spec(e.take(i)) + u64_le_bytes_spec(e[i]);
    assert(a.len() == 8 * (i + 1));
    assert(b.len() == 8 * i + 8);
    assert forall|k: int| 0 <= k < a.len() implies a[k] == b[k] by {
        lemma_fundamental_div_mod(k, 8);
        lemma_mod_bound(k, 8);
        lemma_div_pos_is_pos(k, 8);
        if k < 8 * i {
            assert(k / 8 < i) by (nonlinear_arith)
                requires
                    k < 8 * i,
                    k == 8 * (k / 8) + k % 8,
                    0 <= k % 8 < 8,
            ;
            assert(b[k] == le_byte_spec(e.take(i)[k / 8], k % 8));
        } else {
            lemma_fundamental_div_mod_converse_div(k, 8, i, k - 8 * i);
            lemma_fundamental_div_mod_converse_mod(k, 8, i, k - 8 * i);
            assert(k / 8 == i && k % 8 == k - 8 * i);
            assert(b[k] == u64_le_bytes_spec(e[i])[k - 8 * i]);
        }
    }
    assert(a =~= b);
}

proof fn lemma_padded_slots_step(e: Seq<u64>, i: int)
    requires
        0 <= i < e.len(),
    ensures
        padded_slots_spec(e.take(i + 1)) == padded_slots_spec(e.take(i)) + slot_spec(e[i]),
{
    let a = padded_slots_spec(e.take(i + 1));
    let b = padded_slots_spec(e.take(i)) + slot_spec(e[i]);
    assert(a.len() == 32 * (i + 1));
    assert(b.len() == 32 * i + 32);
    assert forall|k: int| 0 <= k < a.len() implies a[k] == b[k] by {
        lemma_fundamental_div_mod(k, 32);
        lemma_mod_bound(k, 32);
        lemma_div_pos_is_pos(k, 32);
        if k < 32 * i {
            assert(k / 32 < i) by (nonlinear_arith)
                requires
                    k < 32 * i,
                    k == 32 * (k / 32) + k % 32,
                    0 <= k % 32 < 32,
            ;
        } else {
            lemma_fundamental_div_mod_converse_div(k, 32, i, k - 32 * i);
            lemma_fundamental_div_mod_converse_mod(k, 32, i, k - 32 * i);
            assert(k / 32 == i && k % 32 == k - 32 * i);
            assert(b[k] == slot_spec(e[i])[k - 32 * i]);
        }
    }
    assert(a =~= b);
}

/// The contiguous canonical bytes of a run of elements.
fn elements_as_bytes(elements: &Vec<u64>) -> (r: Vec<u8>)
    ensures
        r@ == elements_le_bytes_spec(elements@),
{
    let mut r: Vec<u8> = Vec::new();
    let mut i: usize = 0;
    while i < elements.len()
        invariant
            i <= elements@.len(),
            r@ == elements_le_bytes_spec(elements@.take(i as int)),
        decreases elements@.len() - i,
    {
        let mut tail = u64_le_bytes(elements[i]);
        r.append(&mut tail);
        proof {
            lemma_elements_le_bytes_step(elements@, i as int);
        }
        i = i + 1;
    }
    proof {
        assert(elements@.take(elements@.len() as int) =~= elements@);
    }
    r
}

/// One element's 32-byte slot.
fn element_slot(v: u64) -> (r: Vec<u8>)
    ensures
        r@ == slot_spec(v),
{
    let mut r = u64_le_bytes(v);
    let mut i: usize = 8;
    while i < 32
        invariant
            8 <= i <= 32,
            r@.len() == i,
            forall|k: int| 0 <= k < 8 ==> r@[k] == le_byte_spec(v, k),
            forall|k: int| 8 <= k < i ==> r@[k] == 0u8,
        decreases 32 - i,
    {
        r.push(0u8);
        i = i + 1;
    }
    proof {
        assert(r@ =~= slot_spec(v));
    }
    r
}

// STREAMING ACCUMULATOR
// ================================================================================================
/// Streaming accumulator around the outside BLAKE2s state; the
/// non-canonical element-hashing path feeds it one 32-byte slot per
/// element and finalizes after the last one.
pub struct Blake2sHasher(blake2_rfc::blake2s::Blake2s);

impl Blake2sHasher {
    /// Everything written into this accumulator so far.
    pub closed spec fn absorbed(&self) -> Seq<u8> {
        blake2s_absorbed(self.0)
    }

    pub fn new() -> (r: Self)
        ensures
            r.absorbed() == Seq::<u8>::empty(),
    {
        Blake2sHasher(blake2s_state_new())
    }

    /// Absorbs one byte.
    pub fn write_u8(&mut self, value: u8)
        ensures
            final (self).absorbed() == old(self).absorbed() + seq![value],
    {
        let data: [u8; 1] = [value;1];
        blake2s_state_update(&mut self.0, data.as_slice());
        proof {
            assert(data@ =~= seq![value]);
        }
    }

    /// Absorbs a run of bytes.
    pub fn write_u8_slice(&mut self, values: &[u8])
        ensures
            final (self).absorbed() == old(self).absorbed() + values@,
    {
        blake2s_state_update(&mut self.0, values);
    }

    /// The BLAKE2s-256 digest of everything absorbed.
    pub fn finalize(&self) -> (r: [u8; 32])
        ensures
            r@ == blake2s_of(self.absorbed()),
    {
        blake2s_state_finalize(&self.0)
    }
}

// BLAKE2s WITH 256-BIT OUTPUT
// ================================================================================================
/// BLAKE2s hash function with 256-bit output.
#[allow(non_camel_case_types)]
pub struct Blake2s_256;

impl Hasher for Blake2s_256 {
    type Digest = ByteDigest<32>;

    open spec fn hash_spec(bytes: Seq<u8>) -> Seq<u8> {
        blake2s_of(bytes)
    }

    open spec fn merge_spec(a: Seq<u8>, b: Seq<u8>) -> Seq<u8> {
        blake2s_of(a + b)
    }

    open spec fn merge_with_int_spec(seed: Seq<u8>, value: u64) -> Seq<u8> {
        blake2s_of(seed + u64_le_bytes_spec(value))
    }

    fn hash(bytes: &[u8]) -> (r: ByteDigest<32>) {
        let d = ByteDigest(blake2s_hash(bytes));
        proof {
            assert(d@ == d.0@);
        }
        d
    }

    fn merge(values: &[ByteDigest<32>; 2]) -> (r: ByteDigest<32>) {
        let mut data: Vec<u8> = Vec::new();
        values[0].write_into(&mut data);
        values[1].write_into(&mut data);
        proof {
            assert(data@ =~= values@[0]@ + values@[1]@);
        }
        ByteDigest(blake2s_hash(data.as_slice()))
    }

    fn merge_with_int(seed: ByteDigest<32>, value: u64) -> (r: ByteDigest<32>) {
        let mut data: Vec<u8> = Vec::new();
        seed.write_into(&mut data);
        let mut tail = u64_le_bytes(value);
        data.append(&mut tail);
        proof {
            assert(data@ =~= seed@ + u64_le_bytes_spec(value));
        }
        ByteDigest(blake2s_hash(data.as_slice()))
    }
}

impl ElementHasher for Blake2s_256 {
    open spec fn hash_elements_spec(elements: Seq<u64>, canonical: bool) -> Seq<u8> {
        if canonical {
            blake2s_of(elements_le_bytes_spec(elements))
        } else {
            blake2s_of(padded_slots_spec(elements))
        }
    }

    fn hash_elements(elements: &Vec<u64>, canonical: bool) -> (r: ByteDigest<32>) {
        if canonical {
            // the elements' in-memory bytes already are canonical: hash the
            // whole sequence as one contiguous buffer
            let bytes = elements_as_bytes(elements);
            ByteDigest(blake2s_hash(bytes.as_slice()))
        } else {
            // serialize each element into its fixed-width slot before hashing
            let mut hasher = Blake2sHasher::new();
            let mut i: usize = 0;
            proof {
                assert(padded_slots_spec(elements@.take(0)) =~= Seq::<u8>::empty());
            }
            while i < elements.len()
                invariant
                    i <= elements@.len(),
                    hasher.absorbed() == padded_slots_spec(elements@.take(i as int)),
                decreases elements@.len() - i,
            {
                let slot = element_slot(elements[i]);
                hasher.write_u8_slice(slot.as_slice());
                proof {
                    lemma_padded_slots_step(elements@, i as int);
                }
                i = i + 1;
            }
            proof {
                assert(elements@.take(elements@.len() as int) =~= elements@);
            }
            ByteDigest(hasher.finalize())
        }
    }
}

// BLAKE2s WITH 192-BIT OUTPUT
// ================================================================================================
/// BLAKE2s hash function with 192-bit output: every operation is the
/// 256-bit operation truncated to its first 24 bytes.
#[allow(non_camel_case_types)]
pub struct Blake2s_192;

/// The first 24 bytes of a 32-byte digest.
fn take24(bytes: &[u8; 32]) -> (r: [u8; 24])
    ensures
        r@ == bytes@.subrange(0, 24),
{
    let mut r: [u8; 24] = [0u8; 24];
    let mut i: usize = 0;
    while i < 24
        invariant
            i <= 24,
            forall|k: int| 0 <= k < i ==> r@[k] == bytes@[k],
        decreases 24 - i,
    {
        r[i] = bytes[i];
        i = i + 1;
    }
    proof {
        assert(r@ =~= bytes@.subrange(0, 24));
    }
    r
}

impl Hasher for Blake2s_192 {
    type Digest = ByteDigest<24>;

    open spec fn hash_spec(bytes: Seq<u8>) -> Seq<u8> {
        blake2s_of(bytes).subrange(0, 24)
    }

    open spec fn merge_spec(a: Seq<u8>, b: Seq<u8>) -> Seq<u8> {
        blake2s_of(a + b).subrange(0, 24)
    }

    open spec fn merge_with_int_spec(seed: Seq<u8>, value: u64) -> Seq<u8> {
        blake2s_of(seed + u64_le_bytes_spec(value)).subrange(0, 24)
    }

    fn hash(bytes: &[u8]) -> (r: ByteDigest<24>) {
        let full = blake2s_hash(bytes);
        ByteDigest(take24(&full))
    }

    fn merge(values: &[ByteDigest<24>; 2]) -> (r: ByteDigest<24>) {
        let mut data: Vec<u8> = Vec::new();
        values[0].write_into(&mut data);
        values[1].write_into(&mut data);
        proof {
            assert(data@ =~= values@[0]@ + values@[1]@);
        }
        let full = blake2s_hash(data.as_slice());
        ByteDigest(take24(&full))
    }

    fn merge_with_int(seed: ByteDigest<24>, value: u64) -> (r: ByteDigest<24>) {
        let mut data: Vec<u8> = Vec::new();
        seed.write_into(&mut data);
        let mut tail = u64_le_bytes(value);
        data.append(&mut tail);
        proof {
            assert(data@ =~= seed@ + u64_le_bytes_spec(value));
        }
        let full = blake2s_hash(data.as_slice());
        ByteDigest(take24(&full))
    }
}

impl ElementHasher for Blake2s_192 {
    open spec fn hash_elements_spec(elements: Seq<u64>, canonical: bool) -> Seq<u8> {
        <Blake2s_256 as ElementHasher>::hash_elements_spec(elements, canonical).subrange(0, 24)
    }

    fn hash_elements(elements: &Vec<u64>, canonical: bool) -> (r: ByteDigest<24>) {
        let full = Blake2s_256::hash_elements(elements, canonical);
        ByteDigest(take24(&full.0))
    }
}

// LAWS
// ================================================================================================
/// Merging two digests is hashing the concatenation of their bytes, at
/// either output width.
pub proof fn lemma_merge_is_hash_of_concat(a: Seq<u8>, b: Seq<u8>)
    ensures
        <Blake2s_256 as Hasher>::merge_spec(a, b) == <Blake2s_256 as Hasher>::hash_spec(a + b),
        <Blake2s_192 as Hasher>::merge_spec(a, b) == <Blake2s_192 as Hasher>::hash_spec(a + b),
{
}

/// Hashing a seed with a counter is hashing the seed's bytes followed by
/// the counter's eight little-endian bytes, at either output width.
pub proof fn lemma_merge_with_int_is_hash(seed: Seq<u8>, value: u64)
    ensures
        <Blake2s_256 as Hasher>::merge_with_int_spec(seed, value) == <Blake2s_256 as Hasher>::hash_spec(
            seed + u64_le_bytes_spec(value),
        ),
        <Blake2s_192 as Hasher>::merge_with_int_spec(seed, value) == <Blake2s_192 as Hasher>::hash_spec(
            seed + u64_le_bytes_spec(value),
        ),
{
}

/// Every 192-bit operation equals the first 24 bytes of the corresponding
/// 256-bit operation, for all inputs.
pub proof fn lemma_blake2s_192_truncates_256(
    bytes: Seq<u8>,
    a: Seq<u8>,
    b: Seq<u8>,
    seed: Seq<u8>,
    value: u64,
    elements: Seq<u64>,
    canonical: bool,
)
    ensures
        <Blake2s_192 as Hasher>::hash_spec(bytes) == <Blake2s_256 as Hasher>::hash_spec(
            bytes,
        ).subrange(0, 24),
        <Blake2s_192 as Hasher>::merge_spec(a, b) == <Blake2s_256 as Hasher>::merge_spec(
            a,
            b,
        ).subrange(0, 24),
        <Blake2s_192 as Hasher>::merge_with_int_spec(seed, value)
            == <Blake2s_256 as Hasher>::merge_with_int_spec(seed, value).subrange(0, 24),
        <Blake2s_192 as ElementHasher>::hash_elements_spec(elements, canonical)
            == <Blake2s_256 as ElementHasher>::hash_elements_spec(elements, canonical).subrange(
            0,
            24,
        ),
{
}

} // verus!
