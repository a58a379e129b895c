//! Candidate images and pairs of candidates ranked by similarity.
use vstd::prelude::*;

use crate::external::{image_dimensions, spec_image_dims};

verus! {

/// Represents an image and attributes that may be used for comparison
/// to choose the favored of two duplicates.
#[derive(Clone, Debug)]
pub struct SimilarImage {
    /// Path to the image.
    pub path: String,
    /// Width of the decoded image in pixels.
    pub width: u32,
    /// Height of the decoded image in pixels.
    pub height: u32,
}

impl SimilarImage {
    /// Create a new `SimilarImage`, reading the dimensions off the decoded
    /// image. Identity of the value is its path alone.
    pub fn new(path: String, image: &image::DynamicImage) -> (r: SimilarImage)
        ensures
            r.path == path,
            r.width == spec_image_dims(*image).0,
            r.height == spec_image_dims(*image).1,
    {
        let (width, height) = image_dimensions(image);
        SimilarImage { path, width, height }
    }

    /// An explicit copy of the candidate, equal to the original as a value.
    pub fn duplicate(&self) -> (r: SimilarImage)
        ensures
            r == *self,
    {
        SimilarImage { path: self.path.clone(), width: self.width, height: self.height }
    }

    /// A candidate with placeholder dimensions; intended for tests.
    pub fn test_image(path: String) -> (r: SimilarImage)
        ensures
            r.path == path,
            r.width == 0,
            r.height == 0,
    {
        SimilarImage { path, width: 0, height: 0 }
    }
}

impl PartialEq for SimilarImage {
    /// Two candidates are the same image exactly when their paths are equal.
    fn eq(&self, other: &SimilarImage) -> (r: bool) {
        self.path == other.path
    }
}

impl vstd::std_specs::cmp::PartialEqSpecImpl for SimilarImage {
    open spec fn obeys_eq_spec() -> bool {
        true
    }

    open spec fn eq_spec(&self, other: &SimilarImage) -> bool {
        self.path@ == other.path@
    }
}

/// A set of two similar images: the Hamming distance between their
/// fingerprints, and the two candidates with the lexicographically smaller
/// path on the left.
#[derive(Clone, Debug)]
pub struct SimilarPair {
    /// Similarity index: the Hamming distance, zero for identical
    /// fingerprints.
    pub similarity: usize,
    /// Candidate with the smaller path.
    pub left: SimilarImage,
    /// Candidate with the larger path.
    pub right: SimilarImage,
}

impl SimilarPair {
    /// Create a new similar pair.
    pub fn new(similarity: usize, left: SimilarImage, right: SimilarImage) -> (r: SimilarPair)
        ensures
            r.similarity == similarity,
            r.left == left,
            r.right == right,
    {
        SimilarPair { similarity, left, right }
    }
}

impl SimilarPair {
    /// An explicit copy of the pair, equal to the original as a value.
    pub fn duplicate(&self) -> (r: SimilarPair)
        ensures
            r == *self,
    {
        SimilarPair {
            similarity: self.similarity,
            left: self.left.duplicate(),
            right: self.right.duplicate(),
        }
    }
}

impl PartialEq for SimilarPair {
    /// Pairs are equal when the distance matches and both candidates are the
    /// same images.
    fn eq(&self, other: &SimilarPair) -> (r: bool) {
        self.similarity == other.similarity && self.left == other.left && self.right
            == other.right
    }
}

impl vstd::std_specs::cmp::PartialEqSpecImpl for SimilarPair {
    open spec fn obeys_eq_spec() -> bool {
        true
    }

    open spec fn eq_spec(&self, other: &SimilarPair) -> bool {
        self.similarity == other.similarity && self.left.path@ == other.left.path@
            && self.right.path@ == other.right.path@
    }
}

} // verus!
