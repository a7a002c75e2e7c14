//! Fixed-size byte digests.
//!
//! A [`ByteDigest<N>`] is an identity value of exactly `N` raw bytes,
//! `N <= 32`. Beside equality it offers a canonical zero-padded 32-byte
//! view, a rendering as little-endian 32-bit words (and as their hex
//! digits), byte serialization with a structured error, and bulk
//! conversion between a flat byte buffer and a run of digests. The bulk
//! conversion is an explicit, length-checked copy: its two directions are
//! proved to be mutual inverses.

use vstd::prelude::*;
use vstd::arithmetic::power::{pow, lemma_pow1, lemma_pow_adds};

verus! {

/// Output type of a cryptographic hash function: a value with a byte view
/// of at most 32 bytes and a canonical 32-byte rendering.
pub trait Digest: View<V = Seq<u8>> + Sized {
    /// This digest serialized into 32 bytes; digests shorter than 32 bytes
    /// are zero-padded on the right.
    fn as_bytes(&self) -> (r: [u8; 32])
        requires
            self@.len() <= 32,
        ensures
            forall|i: int| 0 <= i < self@.len() ==> r@[i] == self@[i],
            forall|i: int| self@.len() <= i < 32 ==> r@[i] == 0u8,
    ;
}

/// Why a digest could not be read back from bytes: the buffer held too few
/// bytes, or the bytes were no valid encoding. For raw digests only the
/// first can occur; decorated encodings report the second.
#[derive(Debug, Clone, Copy, PartialEq, Eq, Structural)]
pub enum DeserializationError {
    WrongByteCount,
    MalformedEncoding,
}

/// A digest of exactly `N` raw bytes.
#[derive(Debug, Clone, Copy)]
pub struct ByteDigest<const N: usize>(pub [u8; N]);

impl<const N: usize> View for ByteDigest<N> {
    type V = Seq<u8>;

    open spec fn view(&self) -> Seq<u8> {
        self.0@
    }
}

impl<const N: usize> PartialEq for ByteDigest<N> {
    fn eq(&self, other: &Self) -> (r: bool) {
        let mut i: usize = 0;
        while i < N
            invariant
                i <= N,
                forall|k: int| 0 <= k < i ==> self@[k] == other@[k],
            decreases N - i,
        {
            if self.0[i] != other.0[i] {
                proof {
                    assert(self@[i as int] != other@[i as int]);
                }
                return false;
            }
            i = i + 1;
        }
        proof {
            assert(self@ =~= other@);
        }
        true
    }
}

impl<const N: usize> vstd::std_specs::cmp::PartialEqSpecImpl for ByteDigest<N> {
    open spec fn obeys_eq_spec() -> bool {
        true
    }

    open spec fn eq_spec(&self, other: &Self) -> bool {
        self@ == other@
    }
}

impl<const N: usize> Eq for ByteDigest<N> {}

impl<const N: usize> Default for ByteDigest<N> {
    /// The default digest is all zeros.
    fn default() -> (r: Self)
        ensures
            r@ == Seq::new(N as nat, |i: int| 0u8),
    {
        let r = ByteDigest([0u8; N]);
        proof {
            assert(r@ =~= Seq::new(N as nat, |i: int| 0u8));
        }
        r
    }
}

/// The little-endian 32-bit word formed by bytes `4*i .. 4*i + 4`.
pub open spec fn word_spec(b: Seq<u8>, i: int) -> u32 {
    (b[4 * i] as int + 256 * b[4 * i + 1] as int + 65536 * b[4 * i + 2] as int + 16777216 * b[4
        * i + 3] as int) as u32
}

/// The ASCII code of the lower-case hex digit for `n` in `0 .. 16`.
pub open spec fn hex_digit_spec(n: int) -> u8 {
    if n < 10 {
        (48 + n) as u8
    } else {
        (87 + n) as u8
    }
}

/// Character `i` of the hex rendering: successive 8-hex-digit
/// little-endian 32-bit words, each word's digits most significant first.
pub open spec fn hex_char_spec(b: Seq<u8>, i: int) -> char {
    hex_digit_spec((word_spec(b, i / 8) as int / pow(16, (7 - i % 8) as nat)) % 16) as char
}

/// The full hex rendering of a digest's bytes.
pub open spec fn to_hex_spec(b: Seq<u8>) -> Seq<char> {
    Seq::new(2 * b.len(), |i: int| hex_char_spec(b, i))
}

/// The flat byte buffer formed by `ds.len()` digest views of `n` bytes each.
pub open spec fn bytes_of_digests_spec(ds: Seq<Seq<u8>>, n: int) -> Seq<u8> {
    Seq::new((n * ds.len()) as nat, |i: int| ds[i / n][i % n])
}

proof fn lemma_bytes_of_digests_index(ds: Seq<Seq<u8>>, n: int, k: int)
    requires
        n >= 1,
        0 <= k < n * ds.len(),
    ensures
        bytes_of_digests_spec(ds, n)[k] == ds[k / n][k % n],
{
}

/// The digest views formed by cutting a flat byte buffer into `n`-byte runs.
pub open spec fn digests_of_bytes_spec(b: Seq<u8>, n: int) -> Seq<Seq<u8>> {
    Seq::new((b.len() as int / n) as nat, |i: int| b.subrange(n * i, n * (i + 1)))
}

/// The views of a run of digests.
pub open spec fn digest_views<const N: usize>(ds: Seq<ByteDigest<N>>) -> Seq<Seq<u8>> {
    Seq::new(ds.len(), |i: int| ds[i]@)
}

impl<const N: usize> ByteDigest<N> {
    pub fn new(value: [u8; N]) -> (r: Self)
        ensures
            r@ == value@,
    {
        ByteDigest(value)
    }

    /// Copies a flat byte buffer into a run of digests, `N` bytes each.
    pub fn bytes_as_digests(bytes: &[u8]) -> (r: Vec<ByteDigest<N>>)
        requires
            N >= 1,
            (bytes@.len() as int) % (N as int) == 0,
        ensures
            digest_views(r@) == digests_of_bytes_spec(bytes@, N as int),
    {
        let count: usize = bytes.len() / N;
        let mut r: Vec<ByteDigest<N>> = Vec::new();
        let mut i: usize = 0;
        while i < count
            invariant
                N >= 1,
                i <= count,
                bytes@.len() <= usize::MAX,
                count == bytes@.len() as int / N as int,
                (bytes@.len() as int) % (N as int) == 0,
                r@.len() == i,
                forall|k: int| 0 <= k < i ==> r@[k]@ == bytes@.subrange(
                    N as int * k,
                    N as int * (k + 1),
                ),
            decreases count - i,
        {
            proof {
                vstd::arithmetic::div_mod::lemma_fundamental_div_mod(
                    bytes@.len() as int,
                    N as int,
                );
                assert(bytes@.len() as int == (N as int) * (count as int));
                assert(i as int * (N as int) + (N as int) <= (N as int) * (count as int))
                    by (nonlinear_arith)
                    requires
                        0 <= (i as int) < (count as int),
                        (N as int) >= 1,
                ;
            }
            let mut a: [u8; N] = [0u8; N];
            let mut j: usize = 0;
            while j < N
                invariant
                    j <= N,
                    i * N + N <= bytes@.len(),
                    bytes@.len() <= usize::MAX,
                    i < count,
                    forall|k: int| 0 <= k < j ==> a@[k] == bytes@[i as int * N as int + k],
                decreases N - j,
            {
                a[j] = bytes[i * N + j];
                j = j + 1;
            }
            proof {
                assert((N as int) * (i as int + 1) == i as int * (N as int) + (N as int))
                    by (nonlinear_arith);
                assert(a@ =~= bytes@.subrange(N as int * i as int, N as int * (i as int + 1)));
            }
            r.push(ByteDigest(a));
            i = i + 1;
        }
        proof {
            assert(digest_views(r@) =~= digests_of_bytes_spec(bytes@, N as int));
        }
        r
    }

    /// Copies a run of digests into one flat byte buffer, `N` bytes each.
    pub fn digests_as_bytes(digests: &Vec<ByteDigest<N>>) -> (r: Vec<u8>)
        requires
            N >= 1,
        ensures
            r@ == bytes_of_digests_spec(digest_views(digests@), N as int),
    {
        let mut r: Vec<u8> = Vec::new();
        let mut i: usize = 0;
        while i < digests.len()
            invariant
                N >= 1,
                i <= digests@.len(),
                r@.len() == i * N,
                forall|k: int| 0 <= k < r@.len() ==> r@[k] == digests@[k / (N as int)]@[k % (
                N as int)],
            decreases digests@.len() - i,
        {
            let d = &digests[i];
            let mut j: usize = 0;
            while j < N
                invariant
                    N >= 1,
                    j <= N,
                    i < digests@.len(),
                    d.0@ == digests@[i as int]@,
                    r@.len() == i * N + j,
                    forall|k: int| 0 <= k < r@.len() ==> r@[k] == digests@[k / (N as int)]@[k % (
                    N as int)],
                decreases N - j,
            {
                r.push(d.0[j]);
                proof {
                    let k = r@.len() - 1;
                    assert(k == i as int * (N as int) + j as int);
                    vstd::arithmetic::div_mod::lemma_fundamental_div_mod_converse_div(
                        k, N as int, i as int, j as int,
                    );
                    vstd::arithmetic::div_mod::lemma_fundamental_div_mod_converse_mod(
                        k, N as int, i as int, j as int,
                    );
                    assert(r@[k] == digests@[k / (N as int)]@[k % (N as int)]);
                }
                j = j + 1;
            }
            proof {
                assert((i as int + 1) * (N as int) == i as int * (N as int) + (N as int))
                    by (nonlinear_arith);
            }
            i = i + 1;
        }
        proof {
            let flat = bytes_of_digests_spec(digest_views(digests@), N as int);
            assert((N as int) * (digests@.len() as int) >= 0) by (nonlinear_arith)
                requires
                    (N as int) >= 1,
                    digests@.len() >= 0,
            ;
            assert((digests@.len() as int) * (N as int) == (N as int) * (
            digests@.len() as int)) by (nonlinear_arith);
            assert(flat.len() == (N as int) * (digests@.len() as int));
            assert(r@.len() == (digests@.len() as int) * (N as int));
            assert forall|k: int| 0 <= k < r@.len() implies r@[k] == flat[k] by {
                vstd::arithmetic::div_mod::lemma_fundamental_div_mod(k, N as int);
                vstd::arithmetic::div_mod::lemma_mod_bound(k, N as int);
                vstd::arithmetic::div_mod::lemma_div_pos_is_pos(k, N as int);
                let q = k / (N as int);
                let t = k % (N as int);
                assert(q < digests@.len()) by (nonlinear_arith)
                    requires
                        (N as int) >= 1,
                        0 <= t < (N as int),
                        k == (N as int) * q + t,
                        k < (digests@.len() as int) * (N as int),
                        q >= 0,
                ;
                assert(r@[k] == digests@[q]@[t]);
                assert(digest_views(digests@)[q] == digests@[q]@);
                assert(digest_views(digests@).len() == digests@.len());
                assert((digests@.len() as int) * (N as int) == (N as int) * (
                digests@.len() as int)) by (nonlinear_arith);
                lemma_bytes_of_digests_index(digest_views(digests@), N as int, k);
            };
            assert(r@ =~= flat);
        }
        r
    }

    /// This digest rendered as little-endian 32-bit words, in byte order.
    pub fn to_words(&self) -> (r: Vec<u32>)
        requires
            N % 4 == 0,
        ensures
            r@.len() == N as int / 4,
            forall|i: int| 0 <= i < r@.len() ==> r@[i] == word_spec(self@, i),
    {
        let mut result: Vec<u32> = Vec::new();
        let words: usize = N / 4;
        let mut i: usize = 0;
        while i < words
            invariant
                N % 4 == 0,
                words == N as int / 4,
                i <= words,
                result@.len() == i,
                forall|k: int| 0 <= k < i ==> result@[k] == word_spec(self@, k),
            decreases words - i,
        {
            proof {
                assert(N as int == 4 * (N as int / 4));
            }
            let b0 = self.0[4 * i];
            let b1 = self.0[4 * i + 1];
            let b2 = self.0[4 * i + 2];
            let b3 = self.0[4 * i + 3];
            let w: u32 = b0 as u32 + 256 * b1 as u32 + 65536 * b2 as u32 + 16777216 * b3 as u32;
            result.push(w);
            i = i + 1;
        }
        result
    }

    /// This digest rendered as lower-case hex: each little-endian 32-bit
    /// word printed as eight hex digits, most significant digit first.
    pub fn to_hex(&self) -> (r: String)
        requires
            N % 4 == 0,
        ensures
            r@ == to_hex_spec(self@),
    {
        let words = self.to_words();
        let mut out: Vec<u8> = Vec::new();
        let mut i: usize = 0;
        while i < words.len()
            invariant
                N % 4 == 0,
                words@.len() == N as int / 4,
                forall|k: int| 0 <= k < words@.len() ==> words@[k] == word_spec(self@, k),
                i <= words@.len(),
                out@.len() == 8 * i,
                forall|k: int| 0 <= k < out@.len() ==> out@[k] == hex_digit_spec(
                    (word_spec(self@, k / 8) as int / pow(16, (7 - k % 8) as nat)) % 16,
                ),
            decreases words@.len() - i,
        {
            let w: u32 = words[i];
            let mut pw: u32 = 0x10000000;
            let mut k: usize = 0;
            proof {
                reveal_with_fuel(pow, 8);
                assert(pow(16, 7nat) == 0x10000000);
                vstd::arithmetic::power::lemma_pow_positive(16, 7nat);
            }
            while k < 8
                invariant
                    N % 4 == 0,
                    i < words@.len(),
                    forall|t: int| 0 <= t < words@.len() ==> words@[t] == word_spec(self@, t),
                    w == word_spec(self@, i as int),
                    k <= 8,
                    k < 8 ==> pw as int == pow(16, (7 - k) as nat) && pw >= 1,
                    out@.len() == 8 * i + k,
                    forall|t: int| 0 <= t < out@.len() ==> out@[t] == hex_digit_spec(
                        (word_spec(self@, t / 8) as int / pow(16, (7 - t % 8) as nat)) % 16,
                    ),
                decreases 8 - k,
            {
                let d: u32 = (w / pw) % 16;
                let c: u8 = if d < 10 {
                    (d + 48) as u8
                } else {
                    (d + 87) as u8
                };
                out.push(c);
                proof {
                    let t = out@.len() - 1;
                    assert(t == 8 * i + k);
                    assert(t / 8 == i as int && t % 8 == k as int) by (nonlinear_arith)
                        requires
                            0 <= k < 8,
                            t == 8 * i as int + k as int,
                            i >= 0,
                    ;
                    if k < 7 {
                        assert(pow(16, (7 - k) as nat) == 16 * pow(16, (7 - (k + 1)) as nat)) by {
                            lemma_pow1(16);
                            lemma_pow_adds(16, 1nat, (6 - k) as nat);
                        };
                        vstd::arithmetic::power::lemma_pow_positive(16, (6 - k) as nat);
                        vstd::arithmetic::div_mod::lemma_div_multiples_vanish(
                            pow(16, (6 - k) as nat),
                            16,
                        );
                        assert(pw as int / 16 == pow(16, (6 - k) as nat));
                    }
                }
                pw = pw / 16;
                k = k + 1;
            }
            i = i + 1;
        }
        proof {
            assert forall|t: int| 0 <= t < out@.len() implies out@[t] < 128 by {
                let wv = word_spec(self@, t / 8) as int;
                let pv = pow(16, (7 - t % 8) as nat);
                vstd::arithmetic::power::lemma_pow_positive(16, (7 - t % 8) as nat);
                vstd::arithmetic::div_mod::lemma_div_pos_is_pos(wv, pv);
                vstd::arithmetic::div_mod::lemma_mod_bound(wv / pv, 16);
                assert(out@[t] == hex_digit_spec((wv / pv) % 16));
            };
        }
        let s = ascii_to_string(out);
        proof {
            vstd::arithmetic::div_mod::lemma_fundamental_div_mod(N as int, 4);
            assert(out@.len() == 2 * self@.len());
            assert forall|t: int| 0 <= t < s@.len() implies s@[t] == to_hex_spec(self@)[t] by {
                assert(s@[t] == out@[t] as char);
            };
            assert(s@ =~= to_hex_spec(self@));
        }
        s
    }

    /// Appends this digest's `N` raw bytes to the target buffer.
    pub fn write_into(&self, target: &mut Vec<u8>)
        ensures
            final(target)@ == old(target)@ + self@,
    {
        let mut i: usize = 0;
        while i < N
            invariant
                i <= N,
                target@ == old(target)@ + self@.take(i as int),
            decreases N - i,
        {
            target.push(self.0[i]);
            proof {
                assert(old(target)@ + self@.take(i as int) + seq![self@[i as int]] =~= old(
                    target,
                )@ + self@.take(i as int + 1));
            }
            i = i + 1;
        }
        proof {
            assert(old(target)@ + self@.take(N as int) =~= old(target)@ + self@);
        }
    }

    /// Reads a digest back from the first `N` bytes of the buffer; a buffer
    /// of fewer than `N` bytes is rejected with a length-mismatch error.
    pub fn read_from(source: &[u8]) -> (r: Result<ByteDigest<N>, DeserializationError>)
        ensures
            match r {
                Ok(d) => source@.len() >= N && d@ == source@.subrange(0, N as int),
                Err(e) => source@.len() < N && e == DeserializationError::WrongByteCount,
            },
    {
        if source.len() < N {
            return Err(DeserializationError::WrongByteCount);
        }
        let mut a: [u8; N] = [0u8; N];
        let mut j: usize = 0;
        while j < N
            invariant
                j <= N,
                source@.len() >= N,
                forall|k: int| 0 <= k < j ==> a@[k] == source@[k],
            decreases N - j,
        {
            a[j] = source[j];
            j = j + 1;
        }
        proof {
            assert(a@ =~= source@.subrange(0, N as int));
        }
        Ok(ByteDigest(a))
    }
}

impl<const N: usize> Digest for ByteDigest<N> {
    fn as_bytes(&self) -> (r: [u8; 32]) {
        let mut result: [u8; 32] = [0u8; 32];
        let mut i: usize = 0;
        while i < N
            invariant
                N <= 32,
                i <= N,
                result@.len() == 32,
                forall|k: int| 0 <= k < i ==> result@[k] == self@[k],
                forall|k: int| i <= k < 32 ==> result@[k] == 0u8,
            decreases N - i,
        {
            result[i] = self.0[i];
            i = i + 1;
        }
        result
    }
}

/// Relies on `String::from_utf8`: ASCII bytes become the string of exactly
/// those characters.
#[verifier::external_body]
fn ascii_to_string(bytes: Vec<u8>) -> (r: String)
    requires
        forall|i: int| 0 <= i < bytes@.len() ==> bytes@[i] < 128,
    ensures
        r@ == bytes@.map_values(|b: u8| b as char),
{
    String::from_utf8(bytes).unwrap_or_default()
}

/// Converting a flat buffer to digests and back yields the original buffer,
/// for any buffer length that is a multiple of the digest width.
pub proof fn lemma_bytes_digests_round_trip(b: Seq<u8>, n: int)
    requires
        n >= 1,
        (b.len() as int) % n == 0,
    ensures
        bytes_of_digests_spec(digests_of_bytes_spec(b, n), n) == b,
{
    let ds = digests_of_bytes_spec(b, n);
    vstd::arithmetic::div_mod::lemma_fundamental_div_mod(b.len() as int, n);
    vstd::arithmetic::div_mod::lemma_div_pos_is_pos(b.len() as int, n);
    assert(b.len() as int == n * (b.len() as int / n));
    assert(ds.len() == (b.len() as int) / n);
    let flat = bytes_of_digests_spec(ds, n);
    assert(n * ds.len() >= 0) by (nonlinear_arith)
        requires
            n >= 1,
            ds.len() >= 0,
    ;
    assert(flat.len() == n * ds.len());
    assert forall|i: int| 0 <= i < b.len() implies flat[i] == b[i] by {
        vstd::arithmetic::div_mod::lemma_fundamental_div_mod(i, n);
        vstd::arithmetic::div_mod::lemma_mod_bound(i, n);
        vstd::arithmetic::div_mod::lemma_div_pos_is_pos(i, n);
        let q = i / n;
        let r = i % n;
        assert(q < ds.len()) by (nonlinear_arith)
            requires
                n >= 1,
                0 <= r < n,
                i == n * q + r,
                i < n * ds.len(),
                q >= 0,
        ;
        assert(n * (q + 1) <= n * ds.len() && n * (q + 1) == n * q + n) by (nonlinear_arith)
            requires
                n >= 1,
                q + 1 <= ds.len(),
        ;
        assert(ds[q] == b.subrange(n * q, n * (q + 1)));
        assert(ds[q][r] == b.subrange(n * q, n * (q + 1))[r]);
        assert(ds[q][r] == b[n * q + r]);
    }
    assert(flat =~= b);
}

/// Converting digests to a flat buffer and back yields the original
/// digests, for any run of digests of the given width.
pub proof fn lemma_digests_bytes_round_trip(ds: Seq<Seq<u8>>, n: int)
    requires
        n >= 1,
        forall|i: int| 0 <= i < ds.len() ==> (#[trigger] ds[i]).len() == n,
    ensures
        digests_of_bytes_spec(bytes_of_digests_spec(ds, n), n) == ds,
{
    let b = bytes_of_digests_spec(ds, n);
    assert(n * ds.len() >= 0 && n * ds.len() == ds.len() as int * n + 0) by (nonlinear_arith)
        requires
            n >= 1,
            ds.len() >= 0,
    ;
    assert(b.len() == n * ds.len());
    vstd::arithmetic::div_mod::lemma_fundamental_div_mod_converse_div(
        b.len() as int, n, ds.len() as int, 0,
    );
    vstd::arithmetic::div_mod::lemma_fundamental_div_mod_converse_mod(
        b.len() as int, n, ds.len() as int, 0,
    );
    assert((b.len() as int) / n == ds.len() as int);
    let rs = digests_of_bytes_spec(b, n);
    assert(rs.len() == ds.len());
    assert forall|i: int| 0 <= i < ds.len() implies rs[i] == ds[i] by {
        assert(n * (i + 1) <= n * ds.len() && n * (i + 1) == n * i + n) by (nonlinear_arith)
            requires
                n >= 1,
                i + 1 <= ds.len(),
        ;
        assert forall|j: int| 0 <= j < n implies b.subrange(n * i, n * (i + 1))[j] == ds[i][j] by {
            let k = n * i + j;
            assert(0 <= k < b.len()) by (nonlinear_arith)
                requires
                    n >= 1,
                    0 <= i < ds.len(),
                    0 <= j < n,
                    k == n * i + j,
                    b.len() == n * ds.len(),
            ;
            assert(k == i * n + j) by (nonlinear_arith)
                requires
                    k == n * i + j,
            ;
            vstd::arithmetic::div_mod::lemma_fundamental_div_mod_converse_div(k, n, i, j);
            vstd::arithmetic::div_mod::lemma_fundamental_div_mod_converse_mod(k, n, i, j);
            assert(b[k] == ds[k / n][k % n]);
            assert(b.subrange(n * i, n * (i + 1))[j] == b[k]);
        }
        assert(rs[i] == b.subrange(n * i, n * (i + 1)));
        assert(rs[i] =~= ds[i]);
    }
    assert(rs =~= ds);
}

/// Serializing a digest and reading it back yields the digest; reading a
/// whole `n`-byte buffer and serializing the result yields the buffer.
pub proof fn lemma_digest_serialization_round_trip(d: Seq<u8>, n: int)
    requires
        d.len() == n,
    ensures
        d.subrange(0, n) == d,
{
    assert(d.subrange(0, n) =~= d);
}

} // verus!
