//! The boundary with unverified code: declarations of outside types and thin
//! wrappers around the outside calls the pipeline relies on. Everything else
//! in this crate is verified against the contracts stated here.
use vstd::prelude::*;

use rayon::iter::{IntoParallelRefIterator, ParallelIterator};

use crate::StatusMsg;
use crate::fingerprint::Fingerprint;
use crate::hash_type::HashMethod;
use crate::ranker::{make_pair_at, spec_pair_of};
use crate::similar_image::{SimilarImage, SimilarPair};

verus! {

#[verifier::external_type_specification]
#[verifier::external_body]
/// A decoded image, carried through the pipeline as an opaque value.
pub struct ExDynamicImage(image::DynamicImage);

#[verifier::external_type_specification]
#[verifier::external_body]
#[verifier::reject_recursive_types(T)]
/// The sending half of a channel, used as the progress sink.
pub struct ExSender<T>(std::sync::mpsc::Sender<T>);

/// The pixel dimensions of a decoded image: a name for what image's
/// GenericImageView::dimensions returns, which is a function of the image
/// value alone.
pub uninterp spec fn spec_image_dims(img: image::DynamicImage) -> (u32, u32);

/// Relies on image's GenericImageView::dimensions: the width and height of
/// the decoded image, a pure read of the image value.
#[verifier::external_body]
pub(crate) fn image_dimensions(img: &image::DynamicImage) -> (r: (u32, u32))
    ensures
        r == spec_image_dims(*img),
{
    image::GenericImageView::dimensions(img)
}

/// Relies on std's mpsc Sender::send: delivers the message if the receiving
/// side still exists. A failed send is deliberately swallowed here: a broken
/// progress sink must never halt the pipeline.
#[verifier::external_body]
pub(crate) fn send_status(sender: &std::sync::mpsc::Sender<StatusMsg>, msg: StatusMsg) {
    let _ = sender.send(msg);
}

/// Relies on rayon's indexed parallel iterators: `par_iter().map(f).collect()`
/// applies `f` to every element and collects the results in the input's
/// order, exactly as the sequential map would. The work handed out is one
/// call of the verified `make_pair_at` per index pair.
#[verifier::external_body]
pub(crate) fn par_make_pairs(
    entries: &Vec<(Fingerprint, SimilarImage)>,
    idx: &Vec<(usize, usize)>,
) -> (r: Vec<SimilarPair>)
    requires
        forall|k: int|
            0 <= k < idx@.len() ==> (#[trigger] idx@[k]).0 < entries@.len() && idx@[k].1
                < entries@.len() && entries@[idx@[k].0 as int].0.spec_method()
                == entries@[idx@[k].1 as int].0.spec_method() && entries@[idx@[k].0 as int].0@.len()
                == entries@[idx@[k].1 as int].0@.len(),
    ensures
        r@.len() == idx@.len(),
        forall|k: int|
            0 <= k < idx@.len() ==> #[trigger] r@[k] == spec_pair_of(
                entries@,
                idx@[k].0 as int,
                idx@[k].1 as int,
            ),
{
    idx.par_iter().map(|p| make_pair_at(entries, p.0, p.1)).collect()
}

/// Bits produced by the hashing stage for a method at a given hash size,
/// before packing into bytes: the square of the size for the mean, gradient
/// and DCT strategies; the square of the size rounded up to a multiple of
/// four for the block strategy; and one comparison per adjacent pair along
/// both rows and columns of the halved grid for the double-gradient strategy.
pub open spec fn spec_raw_hash_bits(m: HashMethod, size: nat) -> nat {
    match m {
        HashMethod::Mean => size * size,
        HashMethod::Gradient => size * size,
        HashMethod::Dct => size * size,
        HashMethod::Block => ((size + 3) / 4 * 4) * ((size + 3) / 4 * 4),
        HashMethod::DoubleGradient => {
            let d = (size + 1) / 2 + 1;
            (2 * d * (d - 1)) as nat
        },
    }
}

/// The bit length of a fingerprint computed by a method at a given hash
/// size: the raw bit count padded up to whole bytes.
pub open spec fn spec_fingerprint_len(m: HashMethod, size: nat) -> nat {
    8 * ((spec_raw_hash_bits(m, size) + 7) / 8)
}

/// Relies on img_hash's Hasher::hash_image, configured with the hash size
/// and the algorithm matching the method (the DCT method is the mean
/// algorithm behind a discrete-cosine-transform preprocessing pass): the
/// fingerprint bits are computed from the decoded image alone, and their
/// count is the documented function of method and hash size, padded to whole
/// bytes. The bits themselves are not specified. The image must have at
/// least one pixel in each dimension: resampling an empty image fails inside
/// the crate.
#[verifier::external_body]
pub(crate) fn compute_hash_bits(img: &image::DynamicImage, method: HashMethod, size: u32) -> (r:
    Vec<bool>)
    requires
        1 <= size <= 4096,
        spec_image_dims(*img).0 > 0,
        spec_image_dims(*img).1 > 0,
    ensures
        r@.len() == spec_fingerprint_len(method, size as nat),
{
    let cfg = img_hash::HasherConfig::new().hash_size(size, size);
    let cfg = match method {
        HashMethod::Mean => cfg.hash_alg(img_hash::HashAlg::Mean),
        HashMethod::Block => cfg.hash_alg(img_hash::HashAlg::Blockhash),
        HashMethod::Gradient => cfg.hash_alg(img_hash::HashAlg::Gradient),
        HashMethod::DoubleGradient => cfg.hash_alg(img_hash::HashAlg::DoubleGradient),
        HashMethod::Dct => cfg.hash_alg(img_hash::HashAlg::Mean).preproc_dct(),
    };
    let hash = cfg.to_hasher().hash_image(img);
    hash.as_bytes().iter().flat_map(|b| (0u8..8).map(move |i| (b >> i) & 1 == 1)).collect()
}

} // verus!
