//! Perceptual fingerprints: a fixed-length bit vector tagged with the method
//! that produced it, and the Hamming distance between two fingerprints.
use vstd::prelude::*;

use crate::external::{spec_fingerprint_len, spec_raw_hash_bits};
use crate::hash_type::HashMethod;

verus! {

/// The bit length of every fingerprint a method produces at a given hash
/// size; all fingerprints of one scan share it.
pub fn fingerprint_len(method: HashMethod, hash_size: u32) -> (r: usize)
    requires
        1 <= hash_size <= 4096,
    ensures
        r == spec_fingerprint_len(method, hash_size as nat),
{
    let s = hash_size as usize;
    proof {
        assert(s * s <= 4096 * 4096) by (nonlinear_arith)
            requires
                s <= 4096,
        ;
    }
    let raw: usize = match method {
        HashMethod::Mean => s * s,
        HashMethod::Gradient => s * s,
        HashMethod::Dct => s * s,
        HashMethod::Block => {
            let r4 = (s + 3) / 4 * 4;
            assert(r4 * r4 <= 4099 * 4099) by (nonlinear_arith)
                requires
                    r4 <= 4099,
            ;
            r4 * r4
        },
        HashMethod::DoubleGradient => {
            let d = (s + 1) / 2 + 1;
            assert(2 * d * (d - 1) <= 2 * 2049 * 2048) by (nonlinear_arith)
                requires
                    1 <= d <= 2049,
            ;
            2 * d * (d - 1)
        },
    };
    assert(raw == spec_raw_hash_bits(method, hash_size as nat));
    8 * ((raw + 7) / 8)
}

/// Number of positions among the first `n` at which `a` and `b` differ.
pub open spec fn hamming_prefix(a: Seq<bool>, b: Seq<bool>, n: int) -> nat
    decreases n,
{
    if n <= 0 {
        0
    } else {
        hamming_prefix(a, b, n - 1) + (if a[n - 1] != b[n - 1] {
            1nat
        } else {
            0nat
        })
    }
}

/// The Hamming distance: the number of bit positions at which two
/// equal-length bit vectors differ.
pub open spec fn hamming(a: Seq<bool>, b: Seq<bool>) -> nat {
    hamming_prefix(a, b, if a.len() <= b.len() {
        a.len() as int
    } else {
        b.len() as int
    })
}

/// No prefix can differ in more positions than its length.
pub proof fn lemma_hamming_prefix_bound(a: Seq<bool>, b: Seq<bool>, n: int)
    requires
        n >= 0,
    ensures
        hamming_prefix(a, b, n) <= n,
    decreases n,
{
    if n > 0 {
        lemma_hamming_prefix_bound(a, b, n - 1);
    }
}

proof fn lemma_hamming_prefix_symmetric(a: Seq<bool>, b: Seq<bool>, n: int)
    ensures
        hamming_prefix(a, b, n) == hamming_prefix(b, a, n),
    decreases n,
{
    if n > 0 {
        lemma_hamming_prefix_symmetric(a, b, n - 1);
    }
}

/// The distance is symmetric: for any two bit vectors, comparing them in
/// either order counts the same differing positions.
pub proof fn lemma_hamming_symmetric(a: Seq<bool>, b: Seq<bool>)
    ensures
        hamming(a, b) == hamming(b, a),
{
    lemma_hamming_prefix_symmetric(a, b, if a.len() <= b.len() {
        a.len() as int
    } else {
        b.len() as int
    });
}

proof fn lemma_hamming_prefix_self(a: Seq<bool>, n: int)
    ensures
        hamming_prefix(a, a, n) == 0,
    decreases n,
{
    if n > 0 {
        lemma_hamming_prefix_self(a, n - 1);
    }
}

/// The distance is reflexive: a bit vector is at distance zero from itself,
/// so distance zero characterizes identical fingerprints.
pub proof fn lemma_hamming_reflexive(a: Seq<bool>)
    ensures
        hamming(a, a) == 0,
{
    lemma_hamming_prefix_self(a, a.len() as int);
}

/// The bit at position `i` when a byte sequence is read most-significant bit
/// first, as a bit-vector container reads bytes.
pub open spec fn spec_byte_bit(bytes: Seq<u8>, i: int) -> bool {
    (bytes[i / 8] >> (7 - (i % 8)) & 1) == 1
}

/// A similarity-preserving fingerprint: a bit vector of fixed length computed
/// by one hashing method. Fingerprints are only meaningfully comparable when
/// they share the method and the length.
#[derive(Clone, Debug, PartialEq, Eq)]
pub struct Fingerprint {
    method: HashMethod,
    bits: Vec<bool>,
}

impl View for Fingerprint {
    type V = Seq<bool>;

    closed spec fn view(&self) -> Seq<bool> {
        self.bits@
    }
}

impl Fingerprint {
    /// The method that produced this fingerprint.
    pub closed spec fn spec_method(&self) -> HashMethod {
        self.method
    }

    /// Assembles a fingerprint from parts; used by the hashing stage.
    pub(crate) fn from_bits(method: HashMethod, bits: Vec<bool>) -> (r: Fingerprint)
        ensures
            r.spec_method() == method,
            r@ == bits@,
    {
        Fingerprint { method, bits }
    }

    /// Builds a fingerprint from packed bytes, most-significant bit of each
    /// byte first, yielding eight bits per byte.
    pub fn from_bytes(method: HashMethod, bytes: &Vec<u8>) -> (r: Fingerprint)
        requires
            bytes@.len() * 8 <= usize::MAX,
        ensures
            r.spec_method() == method,
            r@.len() == bytes@.len() * 8,
            forall|i: int| 0 <= i < r@.len() ==> r@[i] == spec_byte_bit(bytes@, i),
    {
        let mut bits: Vec<bool> = Vec::new();
        let mut k: usize = 0;
        while k < bytes.len()
            invariant
                k <= bytes@.len(),
                bytes@.len() * 8 <= usize::MAX,
                bits@.len() == k * 8,
                forall|i: int| 0 <= i < bits@.len() ==> bits@[i] == spec_byte_bit(bytes@, i),
            decreases bytes@.len() - k,
        {
            let byte = bytes[k];
            let mut j: usize = 0;
            while j < 8
                invariant
                    j <= 8,
                    k < bytes@.len(),
                    byte == bytes@[k as int],
                    bytes@.len() * 8 <= usize::MAX,
                    bits@.len() == k * 8 + j,
                    forall|i: int| 0 <= i < bits@.len() ==> bits@[i] == spec_byte_bit(bytes@, i),
                decreases 8 - j,
            {
                let shift: u8 = 7 - (j as u8);
                let bit = (byte >> shift) & 1 == 1;
                assert((k * 8 + j) / 8 == k as int && (k * 8 + j) % 8 == j as int) by (nonlinear_arith)
                    requires 0 <= j < 8 && 0 <= k;
                bits.push(bit);
                j += 1;
            }
            k += 1;
        }
        Fingerprint { method, bits }
    }

    /// The number of bits in the fingerprint.
    pub fn len(&self) -> (r: usize)
        ensures
            r == self@.len(),
    {
        self.bits.len()
    }

    /// The method that produced this fingerprint.
    pub fn method(&self) -> (r: HashMethod)
        ensures
            r == self.spec_method(),
    {
        self.method
    }

    /// The bit at the given position.
    pub fn bit(&self, i: usize) -> (r: bool)
        requires
            i < self@.len(),
        ensures
            r == self@[i as int],
    {
        self.bits[i]
    }
}

/// Return the Hamming distance between two fingerprints of the same method
/// and length: the exact count of bit positions at which they differ.
pub fn dist(a: &Fingerprint, b: &Fingerprint) -> (r: usize)
    requires
        a.spec_method() == b.spec_method(),
        a@.len() == b@.len(),
    ensures
        r == hamming(a@, b@),
{
    let n = a.len();
    let mut count: usize = 0;
    let mut i: usize = 0;
    while i < n
        invariant
            i <= n,
            n == a@.len(),
            n == b@.len(),
            count == hamming_prefix(a@, b@, i as int),
            count <= i,
        decreases n - i,
    {
        if a.bit(i) != b.bit(i) {
            count += 1;
        }
        i += 1;
        proof {
            lemma_hamming_prefix_bound(a@, b@, i as int);
        }
    }
    count
}

} // verus!
