//! Scans a directory for image files, computes a perceptual fingerprint for
//! each one, and ranks every unordered pair of images from most to least
//! similar, so that exact and near duplicates surface first.
mod config;
mod discover;
mod external;
mod fingerprint;
mod hash_type;
mod ranker;
mod scanner;
mod similar_image;
mod strings;

pub use config::Config;
pub use discover::{discover_files, is_image_path, FileEntry};
pub use fingerprint::{dist, fingerprint_len, hamming, Fingerprint};
pub use hash_type::{HashMethod, HashType, HashTypeError};
pub use ranker::{pair_le, sort_ham, ResultSet};
pub use scanner::{hash_files, scan_files, DecodedFile, ScanError};
pub use similar_image::{SimilarImage, SimilarPair};

use vstd::prelude::*;

verus! {

/// Status message from scanner.
#[derive(Copy, Clone, Debug)]
pub enum StatusMsg {
    /// All image files have been discovered; the payload is how many.
    Total(usize),
    /// An image has been processed.
    ImageProcessed,
}

} // verus!
