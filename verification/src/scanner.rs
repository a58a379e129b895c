//! The scan pipeline: announce the total, fingerprint every decoded image
//! (dropping the files that failed to decode), report per-file progress, and
//! rank all pairs of fingerprints by similarity.
use vstd::prelude::*;

use std::sync::mpsc::Sender;

use crate::StatusMsg;
use crate::external::{compute_hash_bits, send_status, spec_fingerprint_len, spec_image_dims};
use crate::fingerprint::Fingerprint;
use crate::hash_type::HashType;
use crate::ranker::{ResultSet, sort_ham, spec_all_pairs};
use crate::similar_image::SimilarImage;

verus! {

/// One discovered file handed to the pipeline: its path, and the decoded
/// image or nothing where decoding failed. A failed decode drops the file
/// from the results without failing the scan; so does an image without a
/// single pixel, which no hashing strategy can summarize.
pub struct DecodedFile {
    /// The path the file was discovered under.
    pub path: String,
    /// The decoded image, or nothing if the file could not be decoded.
    pub image: Option<image::DynamicImage>,
}

/// Whether the pipeline can fingerprint a file: it decoded, and the decoded
/// image has at least one pixel in each dimension.
pub open spec fn spec_hashable(f: DecodedFile) -> bool {
    match f.image {
        Some(img) => spec_image_dims(img).0 > 0 && spec_image_dims(img).1 > 0,
        None => false,
    }
}

/// The candidate data a hashable file contributes: its path and the decoded
/// image's pixel dimensions.
pub open spec fn spec_file_meta(f: DecodedFile) -> (Seq<char>, u32, u32) {
    match f.image {
        Some(img) => (f.path@, spec_image_dims(img).0, spec_image_dims(img).1),
        None => (f.path@, 0, 0),
    }
}

/// A fatal scan error; per-file troubles are absorbed, so the only failure
/// is a scan with nothing to do.
#[derive(Clone, Debug)]
pub enum ScanError {
    /// No readable image files were found under the directory.
    NoImagesFound {
        /// The directory that was scanned.
        directory: String,
    },
}

impl ScanError {
    /// A human-readable description of the error.
    pub fn message(&self) -> (r: String)
        ensures
            (match self {
                ScanError::NoImagesFound { directory } => r@
                    == "No readable image files found in "@ + directory@,
            }),
    {
        match self {
            ScanError::NoImagesFound { directory } => {
                let m = "No readable image files found in ".to_owned();
                m.concat(directory.as_str())
            },
        }
    }
}

/// How many of the files the pipeline can fingerprint.
pub open spec fn spec_hashable_count(files: Seq<DecodedFile>) -> nat
    decreases files.len(),
{
    if files.len() == 0 {
        0
    } else {
        spec_hashable_count(files.drop_last()) + (if spec_hashable(files.last()) {
            1nat
        } else {
            0nat
        })
    }
}

/// The path and pixel dimensions of each file the pipeline can fingerprint,
/// in input order.
pub open spec fn spec_hashable_meta(files: Seq<DecodedFile>) -> Seq<(Seq<char>, u32, u32)>
    decreases files.len(),
{
    if files.len() == 0 {
        Seq::empty()
    } else {
        spec_hashable_meta(files.drop_last()) + (if spec_hashable(files.last()) {
            seq![spec_file_meta(files.last())]
        } else {
            Seq::empty()
        })
    }
}

/// The candidate data a hashing result carries: its path and dimensions.
pub open spec fn spec_candidate_meta(e: (Fingerprint, SimilarImage)) -> (Seq<char>, u32, u32) {
    (e.1.path@, e.1.width, e.1.height)
}

/// Fingerprint every decoded image with the selected method and hash size,
/// sending one progress event per processed file. Files that failed to
/// decode, and images without a single pixel, are dropped silently; every
/// produced fingerprint carries the selected method and the method's bit
/// length, so all results are mutually comparable.
pub fn hash_files(
    files: Vec<DecodedFile>,
    hash_size: u32,
    method: &HashType,
    sender: &Sender<StatusMsg>,
) -> (r: Vec<(Fingerprint, SimilarImage)>)
    requires
        1 <= hash_size <= 4096,
    ensures
        r@.len() == spec_hashable_count(files@),
        forall|k: int|
            0 <= k < r@.len() ==> (#[trigger] r@[k]).0.spec_method() == method.spec_method()
                && r@[k].0@.len() == spec_fingerprint_len(method.spec_method(), hash_size as nat),
        r@.map_values(|e: (Fingerprint, SimilarImage)| spec_candidate_meta(e))
            == spec_hashable_meta(files@),
{
    let mut r: Vec<(Fingerprint, SimilarImage)> = Vec::new();
    let mut k: usize = 0;
    proof {
        assert(files@.take(0) =~= Seq::<DecodedFile>::empty());
        assert(r@.map_values(|e: (Fingerprint, SimilarImage)| spec_candidate_meta(e))
            =~= spec_hashable_meta(files@.take(0)));
    }
    while k < files.len()
        invariant
            k <= files@.len(),
            1 <= hash_size <= 4096,
            r@.len() == spec_hashable_count(files@.take(k as int)),
            forall|t: int|
                0 <= t < r@.len() ==> (#[trigger] r@[t]).0.spec_method() == method.spec_method()
                    && r@[t].0@.len() == spec_fingerprint_len(
                    method.spec_method(),
                    hash_size as nat,
                ),
            r@.map_values(|e: (Fingerprint, SimilarImage)| spec_candidate_meta(e))
                == spec_hashable_meta(files@.take(k as int)),
        decreases files@.len() - k,
    {
        let ghost r_old = r@;
        let f = &files[k];
        proof {
            assert(files@.take(k + 1).drop_last() =~= files@.take(k as int));
            assert(files@.take(k + 1).last() == files@[k as int]);
        }
        match &f.image {
            Some(img) => {
                let si = SimilarImage::new(f.path.clone(), img);
                if si.width > 0 && si.height > 0 {
                    let bits = compute_hash_bits(img, method.method(), hash_size);
                    let fp = Fingerprint::from_bits(method.method(), bits);
                    send_status(sender, StatusMsg::ImageProcessed);
                    r.push((fp, si));
                    proof {
                        assert(spec_hashable(files@[k as int]));
                        assert(r@.map_values(
                            |e: (Fingerprint, SimilarImage)| spec_candidate_meta(e),
                        ) =~= spec_hashable_meta(files@.take(k + 1)));
                    }
                } else {
                    proof {
                        assert(!spec_hashable(files@[k as int]));
                        assert(r@.map_values(
                            |e: (Fingerprint, SimilarImage)| spec_candidate_meta(e),
                        ) =~= spec_hashable_meta(files@.take(k + 1)));
                    }
                }
            },
            None => {
                proof {
                    assert(r@.map_values(|e: (Fingerprint, SimilarImage)| spec_candidate_meta(e))
                        =~= spec_hashable_meta(files@.take(k + 1)));
                }
            },
        }
        k += 1;
    }
    proof {
        assert(files@.take(files@.len() as int) =~= files@);
    }
    r
}

/// Scan a set of discovered image files: fail when there is nothing to scan,
/// otherwise announce the total, fingerprint every file that decodes, and
/// rank all pairs from most to least similar.
///
/// The error is raised exactly when the discovered set is empty, before any
/// hashing starts. On success the result is well-formed (sorted most similar
/// first) and holds one pair for every unordered pair of the files that
/// decoded.
pub fn scan_files(
    directory: &str,
    files: Vec<DecodedFile>,
    method: &HashType,
    hash_size: u32,
    sender: Sender<StatusMsg>,
) -> (r: Result<ResultSet, ScanError>)
    requires
        1 <= hash_size <= 4096,
    ensures
        (match r {
            Result::Err(e) => files@.len() == 0 && (e matches ScanError::NoImagesFound {
                directory: d,
            } && d@ == directory@),
            Result::Ok(rs) => {
                let k = spec_hashable_count(files@) as int;
                &&& files@.len() > 0
                &&& rs.wf()
                &&& rs@.len() == k * (k - 1) / 2
                &&& exists|h: Seq<(Fingerprint, SimilarImage)>|
                    {
                        &&& #[trigger] spec_all_pairs(h).to_multiset() == rs@.to_multiset()
                        &&& h.map_values(|e: (Fingerprint, SimilarImage)| spec_candidate_meta(e))
                            == spec_hashable_meta(files@)
                    }
            },
        }),
{
    if files.len() == 0 {
        return Err(ScanError::NoImagesFound { directory: directory.to_owned() });
    }
    send_status(&sender, StatusMsg::Total(files.len()));
    let hashes = hash_files(files, hash_size, method, &sender);
    let ghost witness = hashes@;
    let rs = sort_ham(hashes);
    proof {
        assert(spec_all_pairs(witness).to_multiset() == rs@.to_multiset());
        assert(witness.map_values(|e: (Fingerprint, SimilarImage)| spec_candidate_meta(e))
            == spec_hashable_meta(files@));
    }
    Ok(rs)
}

} // verus!
