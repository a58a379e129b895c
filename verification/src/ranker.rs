//! The similarity ranker: every unordered pair of entries, its Hamming
//! distance, and the resulting collection ordered from most to least similar
//! with deterministic tie-breaking.
use vstd::prelude::*;

use crate::external::par_make_pairs;
use crate::fingerprint::{dist, hamming, Fingerprint};
use crate::similar_image::{SimilarImage, SimilarPair};
use crate::strings::{
    eq_str, lemma_lex_lt_connected, lemma_lex_lt_transitive, lex_le, lex_lt, lt_str,
};

verus! {

/// Ordering of ranked pairs: ascending distance first, then the left and
/// right candidate paths lexicographically, for deterministic tie-breaking.
pub open spec fn spec_pair_le(a: SimilarPair, b: SimilarPair) -> bool {
    ||| a.similarity < b.similarity
    ||| (a.similarity == b.similarity && lex_lt(a.left.path@, b.left.path@))
    ||| (a.similarity == b.similarity && a.left.path@ == b.left.path@ && lex_le(
        a.right.path@,
        b.right.path@,
    ))
}

/// Non-decreasing order of a pair sequence under `spec_pair_le`.
pub open spec fn spec_sorted(s: Seq<SimilarPair>) -> bool {
    forall|i: int, j: int| 0 <= i < j < s.len() ==> spec_pair_le(s[i], s[j])
}

/// Any two pairs are ordered one way or the other.
pub proof fn lemma_pair_le_connected(a: SimilarPair, b: SimilarPair)
    ensures
        spec_pair_le(a, b) || spec_pair_le(b, a),
{
    lemma_lex_lt_connected(a.left.path@, b.left.path@);
    lemma_lex_lt_connected(a.right.path@, b.right.path@);
}

/// The pair order is transitive.
pub proof fn lemma_pair_le_transitive(a: SimilarPair, b: SimilarPair, c: SimilarPair)
    requires
        spec_pair_le(a, b),
        spec_pair_le(b, c),
    ensures
        spec_pair_le(a, c),
{
    if a.similarity == c.similarity {
        if lex_lt(a.left.path@, b.left.path@) && lex_lt(b.left.path@, c.left.path@) {
            lemma_lex_lt_transitive(a.left.path@, b.left.path@, c.left.path@);
        }
        if a.left.path@ == b.left.path@ && b.left.path@ == c.left.path@ {
            if lex_lt(a.right.path@, b.right.path@) && lex_lt(b.right.path@, c.right.path@) {
                lemma_lex_lt_transitive(a.right.path@, b.right.path@, c.right.path@);
            }
        }
    }
}

/// Whether `a` comes no later than `b` in the ranking order.
pub fn pair_le(a: &SimilarPair, b: &SimilarPair) -> (r: bool)
    ensures
        r == spec_pair_le(*a, *b),
{
    if a.similarity < b.similarity {
        true
    } else if a.similarity == b.similarity {
        if lt_str(a.left.path.as_str(), b.left.path.as_str()) {
            true
        } else if eq_str(a.left.path.as_str(), b.left.path.as_str()) {
            lt_str(a.right.path.as_str(), b.right.path.as_str()) || eq_str(
                a.right.path.as_str(),
                b.right.path.as_str(),
            )
        } else {
            false
        }
    } else {
        false
    }
}

/// All fingerprints of the entries share one method and one bit length, so
/// any two of them are meaningfully comparable.
pub open spec fn entries_compatible(s: Seq<(Fingerprint, SimilarImage)>) -> bool {
    forall|i: int, j: int|
        0 <= i < s.len() && 0 <= j < s.len() ==> s[i].0.spec_method() == s[j].0.spec_method()
            && s[i].0@.len() == s[j].0@.len()
}

/// The pair the ranking yields for entries `i` and `j`: their Hamming
/// distance, with the candidate of the lexicographically smaller path on the
/// left.
pub open spec fn spec_pair_of(s: Seq<(Fingerprint, SimilarImage)>, i: int, j: int) -> SimilarPair {
    let d = hamming(s[i].0@, s[j].0@) as usize;
    if lex_lt(s[j].1.path@, s[i].1.path@) {
        SimilarPair { similarity: d, left: s[j].1, right: s[i].1 }
    } else {
        SimilarPair { similarity: d, left: s[i].1, right: s[j].1 }
    }
}

/// The index pairs `(i, j)` with `i < j < n` that one row of the enumeration
/// contributes: `(i, i+1)` up to `(i, n-1)`.
pub open spec fn spec_idx_row(n: int, i: int) -> Seq<(usize, usize)> {
    Seq::new(
        if 0 <= i < n {
            (n - i - 1) as nat
        } else {
            0
        },
        |k: int| (i as usize, (i + 1 + k) as usize),
    )
}

/// The index pairs of all rows from `i` on, in enumeration order.
pub open spec fn spec_idx_from(n: int, i: int) -> Seq<(usize, usize)>
    decreases n - i,
{
    if i < 0 || i >= n {
        Seq::empty()
    } else {
        spec_idx_row(n, i) + spec_idx_from(n, i + 1)
    }
}

/// Every unordered pair of distinct indices below `n`, enumerated once.
pub open spec fn spec_all_idx(n: int) -> Seq<(usize, usize)> {
    spec_idx_from(n, 0)
}

/// All ranked pairs of the entries, in enumeration order: one pair for every
/// unordered pair of distinct entries.
pub open spec fn spec_all_pairs(s: Seq<(Fingerprint, SimilarImage)>) -> Seq<SimilarPair> {
    spec_all_idx(s.len() as int).map_values(
        |ij: (usize, usize)| spec_pair_of(s, ij.0 as int, ij.1 as int),
    )
}

/// Twice the number of enumerated index pairs from row `i` on is the product
/// of the remaining entry count and that count less one.
proof fn lemma_idx_from_len_doubled(n: int, i: int)
    requires
        0 <= i <= n,
    ensures
        2 * spec_idx_from(n, i).len() == (n - i) * (n - i - 1),
    decreases n - i,
{
    if i >= n {
        assert((n - i) * (n - i - 1) == 0) by (nonlinear_arith)
            requires
                i == n,
        ;
    } else {
        lemma_idx_from_len_doubled(n, i + 1);
        assert(spec_idx_from(n, i).len() == (n - i - 1) + spec_idx_from(n, i + 1).len());
        assert(2 * spec_idx_from(n, i).len() == 2 * (n - i - 1) + 2 * spec_idx_from(
            n,
            i + 1,
        ).len());
        assert(2 * (n - i - 1) + (n - i - 1) * (n - i - 2) == (n - i) * (n - i - 1))
            by (nonlinear_arith);
        assert(2 * spec_idx_from(n, i).len() == (n - i) * (n - i - 1));
    }
}

/// The enumeration holds one index pair for every unordered pair of distinct
/// indices below `n`: `n * (n - 1) / 2` of them.
pub proof fn lemma_idx_from_len(n: int, i: int)
    requires
        0 <= i <= n,
    ensures
        spec_idx_from(n, i).len() == (n - i) * (n - i - 1) / 2,
{
    lemma_idx_from_len_doubled(n, i);
    assert((2 * spec_idx_from(n, i).len()) / 2 == spec_idx_from(n, i).len() as int);
}

/// The bounds that every enumerated index pair satisfies.
pub proof fn lemma_idx_from_bounds(n: int, i: int)
    requires
        0 <= i,
        n <= usize::MAX,
    ensures
        forall|k: int|
            0 <= k < spec_idx_from(n, i).len() ==> (#[trigger] spec_idx_from(n, i)[k]).0 < n
                && spec_idx_from(n, i)[k].0 < spec_idx_from(n, i)[k].1 && spec_idx_from(
                n,
                i,
            )[k].1 < n,
    decreases n - i,
{
    if 0 <= i < n {
        lemma_idx_from_bounds(n, i + 1);
        assert forall|k: int|
            0 <= k < spec_idx_from(n, i).len() implies (#[trigger] spec_idx_from(n, i)[k]).0 < n
            && spec_idx_from(n, i)[k].0 < spec_idx_from(n, i)[k].1 && spec_idx_from(n, i)[k].1
            < n by {
            let row = spec_idx_row(n, i);
            if k >= row.len() {
                assert(spec_idx_from(n, i)[k] == spec_idx_from(n, i + 1)[k - row.len()]);
            } else {
                assert(spec_idx_from(n, i)[k] == row[k]);
                assert(row[k] == (i as usize, (i + 1 + k) as usize));
                assert(0 <= i + 1 + k <= n - 1);
                assert((i as usize) as int == i && ((i + 1 + k) as usize) as int == i + 1 + k);
            }
        }
    }
}

/// The ranked pair for entries `i` and `j`, built from the stored values.
pub(crate) fn make_pair_at(
    entries: &Vec<(Fingerprint, SimilarImage)>,
    i: usize,
    j: usize,
) -> (r: SimilarPair)
    requires
        i < entries@.len(),
        j < entries@.len(),
        entries@[i as int].0.spec_method() == entries@[j as int].0.spec_method(),
        entries@[i as int].0@.len() == entries@[j as int].0@.len(),
    ensures
        r == spec_pair_of(entries@, i as int, j as int),
{
    let d = dist(&entries[i].0, &entries[j].0);
    let a = &entries[i].1;
    let b = &entries[j].1;
    if lt_str(b.path.as_str(), a.path.as_str()) {
        SimilarPair { similarity: d, left: b.duplicate(), right: a.duplicate() }
    } else {
        SimilarPair { similarity: d, left: a.duplicate(), right: b.duplicate() }
    }
}

/// Reading a well-formed result set front to back yields non-decreasing
/// distance values: the ranking never puts a less similar pair first.
pub proof fn lemma_sorted_distances_non_decreasing(s: Seq<SimilarPair>)
    requires
        spec_sorted(s),
    ensures
        forall|i: int, j: int| 0 <= i <= j < s.len() ==> s[i].similarity <= s[j].similarity,
{
    assert forall|i: int, j: int|
        0 <= i <= j < s.len() implies s[i].similarity <= s[j].similarity by {
        if i < j {
            assert(spec_pair_le(s[i], s[j]));
        }
    }
}

/// The index of a minimal pair under the ranking order.
fn min_index(v: &Vec<SimilarPair>) -> (m: usize)
    requires
        v@.len() > 0,
    ensures
        m < v@.len(),
        forall|k: int| 0 <= k < v@.len() ==> spec_pair_le(v@[m as int], v@[k]),
{
    let mut m: usize = 0;
    let mut t: usize = 1;
    while t < v.len()
        invariant
            m < v@.len(),
            1 <= t <= v@.len(),
            forall|k: int| 0 <= k < t ==> spec_pair_le(v@[m as int], v@[k]),
        decreases v@.len() - t,
    {
        if pair_le(&v[t], &v[m]) {
            assert forall|k: int| 0 <= k < t implies spec_pair_le(v@[t as int], v@[k]) by {
                lemma_pair_le_transitive(v@[t as int], v@[m as int], v@[k]);
            }
            m = t;
        } else {
            proof {
                lemma_pair_le_connected(v@[m as int], v@[t as int]);
            }
        }
        t += 1;
    }
    m
}

/// Sort pairs into the ranking order, keeping exactly the same pairs.
fn sort_pairs(v: Vec<SimilarPair>) -> (r: Vec<SimilarPair>)
    ensures
        r@.to_multiset() == v@.to_multiset(),
        r@.len() == v@.len(),
        spec_sorted(r@),
{
    broadcast use vstd::seq_lib::group_to_multiset_ensures;

    let ghost orig = v@;
    let mut rest = v;
    let mut out: Vec<SimilarPair> = Vec::new();
    proof {
        assert(out@.to_multiset().add(rest@.to_multiset()) =~= orig.to_multiset());
    }
    while rest.len() > 0
        invariant
            out@.to_multiset().add(rest@.to_multiset()) == orig.to_multiset(),
            out@.len() + rest@.len() == orig.len(),
            spec_sorted(out@),
            forall|a: int, b: int|
                0 <= a < out@.len() && 0 <= b < rest@.len() ==> spec_pair_le(out@[a], rest@[b]),
        decreases rest@.len(),
    {
        let ghost rest_old = rest@;
        let ghost out_old = out@;
        let m = min_index(&rest);
        let x = rest.remove(m);
        proof {
            assert(rest@ == rest_old.remove(m as int));
            vstd::seq_lib::to_multiset_remove(rest_old, m as int);
            assert(rest@.to_multiset() =~= rest_old.to_multiset().remove(x));
            vstd::seq_lib::to_multiset_contains(rest_old, x);
            assert(rest_old.to_multiset().count(x) > 0) by {
                assert(rest_old[m as int] == x);
                assert(rest_old.contains(x));
            }
            assert(rest_old.to_multiset() =~= rest@.to_multiset().insert(x));
        }
        out.push(x);
        proof {
            assert(out@ == out_old.push(x));
            vstd::seq_lib::to_multiset_build(out_old, x);
            assert(out@.to_multiset() =~= out_old.to_multiset().insert(x));
            assert(out@.to_multiset().add(rest@.to_multiset()) =~= orig.to_multiset());
            assert forall|a: int, b: int|
                0 <= a < out@.len() && 0 <= b < rest@.len() implies spec_pair_le(
                out@[a],
                rest@[b],
            ) by {
                if b < m {
                    assert(rest@[b] == rest_old[b]);
                } else {
                    assert(rest@[b] == rest_old[b + 1]);
                }
                if a < out_old.len() {
                    assert(out@[a] == out_old[a]);
                } else {
                    assert(out@[a] == x);
                }
            }
            assert(spec_sorted(out@)) by {
                assert forall|i: int, j: int|
                    0 <= i < j < out@.len() implies spec_pair_le(out@[i], out@[j]) by {
                    if j < out_old.len() {
                        assert(out@[i] == out_old[i] && out@[j] == out_old[j]);
                    } else {
                        assert(out@[j] == x);
                        if i < out_old.len() {
                            assert(out@[i] == out_old[i]);
                            assert(spec_pair_le(out_old[i], rest_old[m as int]));
                        }
                    }
                }
            }
        }
    }
    out
}

/// The complete ordered outcome of one scan: every ranked pair, most similar
/// first, consumed front to back by the caller.
#[derive(Clone, Debug)]
pub struct ResultSet {
    pairs: Vec<SimilarPair>,
}

impl View for ResultSet {
    type V = Seq<SimilarPair>;

    closed spec fn view(&self) -> Seq<SimilarPair> {
        self.pairs@
    }
}

impl ResultSet {
    /// A well-formed result set is sorted by ascending distance with the
    /// deterministic tie-break; every constructor establishes this.
    pub open spec fn wf(&self) -> bool {
        spec_sorted(self@)
    }

    /// How many pairs the result set holds.
    pub fn len(&self) -> (r: usize)
        ensures
            r == self@.len(),
    {
        self.pairs.len()
    }

    /// Whether the result set holds no pairs at all.
    pub fn is_empty(&self) -> (r: bool)
        ensures
            r == (self@.len() == 0),
    {
        self.pairs.len() == 0
    }

    /// Hand the pairs out as a vector in ranking order: distances are
    /// non-decreasing from front to back.
    pub fn into_sorted_vec(self) -> (r: Vec<SimilarPair>)
        ensures
            r@ == self@,
    {
        self.pairs
    }

    /// A borrowed view of the ranked pairs, most similar first.
    pub fn pairs(&self) -> (r: &Vec<SimilarPair>)
        ensures
            r@ == self@,
    {
        &self.pairs
    }

    /// Remove and return the most similar remaining pair: the front of the
    /// ranking order.
    pub fn pop_most_similar(&mut self) -> (r: Option<SimilarPair>)
        ensures
            old(self)@.len() == 0 ==> r is None && final(self)@ == old(self)@,
            old(self)@.len() > 0 ==> r == Some(old(self)@[0]) && final(self)@ == old(
                self,
            )@.drop_first(),
            old(self).wf() ==> final(self).wf(),
    {
        if self.pairs.len() == 0 {
            None
        } else {
            let p = self.pairs.remove(0);
            proof {
                assert(old(self)@.remove(0) =~= old(self)@.drop_first());
                if spec_sorted(old(self)@) {
                    assert forall|i: int, j: int|
                        0 <= i < j < self@.len() implies spec_pair_le(self@[i], self@[j]) by {
                        assert(self@[i] == old(self)@[i + 1]);
                        assert(self@[j] == old(self)@[j + 1]);
                    }
                }
            }
            Some(p)
        }
    }

    /// The exact matches: the pairs whose fingerprints are identical, in
    /// ranking order.
    pub fn exact_duplicates(&self) -> (r: Vec<SimilarPair>)
        ensures
            r@ == self@.filter(|p: SimilarPair| p.similarity == 0),
    {
        let mut r: Vec<SimilarPair> = Vec::new();
        let mut i: usize = 0;
        proof {
            reveal(Seq::filter);
            assert(self@.take(0).filter(|p: SimilarPair| p.similarity == 0)
                =~= Seq::<SimilarPair>::empty());
        }
        while i < self.pairs.len()
            invariant
                i <= self@.len(),
                r@ == self@.take(i as int).filter(|p: SimilarPair| p.similarity == 0),
            decreases self@.len() - i,
        {
            proof {
                reveal(Seq::filter);
                assert(self@.take(i + 1).drop_last() =~= self@.take(i as int));
                assert(self@.take(i + 1).last() == self@[i as int]);
            }
            if self.pairs[i].similarity == 0 {
                r.push(self.pairs[i].duplicate());
            }
            i += 1;
        }
        proof {
            assert(self@.take(self@.len() as int) =~= self@);
        }
        r
    }

    /// The near matches below the similarity cutoff: pairs whose distance is
    /// positive yet at most three tenths of the largest possible distance,
    /// in ranking order.
    pub fn near_duplicates(&self, max_distance: usize) -> (r: Vec<SimilarPair>)
        ensures
            r@ == self@.filter(
                |p: SimilarPair| 0 < p.similarity && 10 * p.similarity <= 3 * max_distance,
            ),
    {
        let mut r: Vec<SimilarPair> = Vec::new();
        let mut i: usize = 0;
        proof {
            reveal(Seq::filter);
            assert(self@.take(0).filter(
                |p: SimilarPair| 0 < p.similarity && 10 * p.similarity <= 3 * max_distance,
            ) =~= Seq::<SimilarPair>::empty());
        }
        while i < self.pairs.len()
            invariant
                i <= self@.len(),
                r@ == self@.take(i as int).filter(
                    |p: SimilarPair| 0 < p.similarity && 10 * p.similarity <= 3 * max_distance,
                ),
            decreases self@.len() - i,
        {
            proof {
                reveal(Seq::filter);
                assert(self@.take(i + 1).drop_last() =~= self@.take(i as int));
                assert(self@.take(i + 1).last() == self@[i as int]);
            }
            let p = &self.pairs[i];
            if 0 < p.similarity && (p.similarity as u128) * 10 <= (max_distance as u128) * 3 {
                r.push(p.duplicate());
            }
            i += 1;
        }
        proof {
            assert(self@.take(self@.len() as int) =~= self@);
        }
        r
    }
}

/// Rank all unordered pairs of distinct entries: compute the Hamming
/// distance of every pair across available processing units, and order the
/// pairs by ascending distance with the deterministic tie-break. The result
/// is a pure function of the entries as an unordered collection.
pub fn sort_ham(hashes: Vec<(Fingerprint, SimilarImage)>) -> (r: ResultSet)
    requires
        entries_compatible(hashes@),
    ensures
        r.wf(),
        r@.to_multiset() == spec_all_pairs(hashes@).to_multiset(),
        r@.len() == hashes@.len() * (hashes@.len() - 1) / 2,
{
    broadcast use vstd::seq_lib::group_to_multiset_ensures;

    let n = hashes.len();
    let ghost gn = n as int;
    let mut idx: Vec<(usize, usize)> = Vec::new();
    let mut i: usize = 0;
    proof {
        assert(idx@ + spec_idx_from(gn, 0) =~= spec_all_idx(gn));
    }
    while i < n
        invariant
            i <= n,
            n == hashes@.len(),
            gn == n as int,
            idx@ + spec_idx_from(gn, i as int) =~= spec_all_idx(gn),
        decreases n - i,
    {
        let mut j: usize = i + 1;
        proof {
            assert(spec_idx_from(gn, i as int) == spec_idx_row(gn, i as int) + spec_idx_from(
                gn,
                i + 1,
            ));
            assert(spec_idx_row(gn, i as int).skip(0) =~= spec_idx_row(gn, i as int));
            assert(idx@ + (spec_idx_row(gn, i as int).skip(j - i - 1) + spec_idx_from(gn, i + 1))
                =~= spec_all_idx(gn));
        }
        while j < n
            invariant
                i < j <= n,
                i < n,
                n == hashes@.len(),
                gn == n as int,
                idx@ + (spec_idx_row(gn, i as int).skip(j - i - 1) + spec_idx_from(gn, i + 1))
                    =~= spec_all_idx(gn),
            decreases n - j,
        {
            let ghost row_rest = spec_idx_row(gn, i as int).skip(j - i - 1);
            idx.push((i, j));
            proof {
                assert(row_rest[0] == (i as usize, j as usize)) by {
                    assert(row_rest[0] == spec_idx_row(gn, i as int)[j - i - 1]);
                }
                assert(row_rest.drop_first() =~= spec_idx_row(gn, i as int).skip(j + 1 - i - 1));
                assert(idx@ + (spec_idx_row(gn, i as int).skip(j + 1 - i - 1) + spec_idx_from(
                    gn,
                    i + 1,
                )) =~= spec_all_idx(gn));
            }
            j += 1;
        }
        proof {
            assert(spec_idx_row(gn, i as int).skip(n - i - 1) =~= Seq::<(usize, usize)>::empty());
            assert(idx@ + spec_idx_from(gn, i + 1) =~= spec_all_idx(gn));
        }
        i += 1;
    }
    proof {
        assert(spec_idx_from(gn, gn) =~= Seq::<(usize, usize)>::empty());
        assert(idx@ =~= spec_all_idx(gn));
        lemma_idx_from_bounds(gn, 0);
    }
    let pairs = par_make_pairs(&hashes, &idx);
    proof {
        assert(pairs@ =~= spec_all_pairs(hashes@));
        lemma_idx_from_len(gn, 0);
    }
    let sorted = sort_pairs(pairs);
    ResultSet { pairs: sorted }
}

} // verus!
