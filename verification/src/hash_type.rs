//! The closed registry of perceptual-hash strategies: parsing a method name,
//! listing the methods with their descriptions, and the default method.
use vstd::prelude::*;

use crate::strings::eq_str;

verus! {

/// One perceptual-hash strategy. The set is closed: a fingerprint computed by
/// one method is only comparable to fingerprints of the same method.
#[derive(Clone, Copy, Debug, PartialEq, Eq, Structural)]
pub enum HashMethod {
    /// Averages pixels and compares each pixel to the mean.
    Mean,
    /// The Blockhash.io algorithm.
    Block,
    /// Compares edges and color boundaries along rows.
    Gradient,
    /// Gradient with an extra pass along columns.
    DoubleGradient,
    /// A Discrete Cosine Transform pass followed by the mean comparison.
    Dct,
}

/// The canonical name under which a method is parsed and listed.
pub open spec fn spec_name_of(m: HashMethod) -> Seq<char> {
    match m {
        HashMethod::Mean => "Mean"@,
        HashMethod::Block => "Block"@,
        HashMethod::Gradient => "Gradient"@,
        HashMethod::DoubleGradient => "DoubleGradient"@,
        HashMethod::Dct => "DCT"@,
    }
}

/// What `HashType::from_name` yields on each input: the method whose
/// canonical name matches exactly, or nothing. There is no case folding;
/// the match is deliberately exact.
pub open spec fn spec_parse_method(s: Seq<char>) -> Option<HashMethod> {
    if s == "Mean"@ {
        Some(HashMethod::Mean)
    } else if s == "Block"@ {
        Some(HashMethod::Block)
    } else if s == "Gradient"@ {
        Some(HashMethod::Gradient)
    } else if s == "DoubleGradient"@ {
        Some(HashMethod::DoubleGradient)
    } else if s == "DCT"@ {
        Some(HashMethod::Dct)
    } else {
        None
    }
}

/// A hashing strategy together with its display name.
#[derive(Clone, Debug)]
pub struct HashType {
    method: HashMethod,
    name: String,
}

/// Error raised when a method name does not resolve.
#[derive(Clone, Debug)]
pub enum HashTypeError {
    /// The given name is not the canonical name of any method.
    InvalidHashError {
        /// The name that failed to parse.
        name: String,
    },
}

impl HashTypeError {
    /// A human-readable description of the error.
    pub fn message(&self) -> (r: String)
        ensures
            (match self {
                HashTypeError::InvalidHashError { name } => r@ == "Failure to parse: "@
                    + name@,
            }),
    {
        match self {
            HashTypeError::InvalidHashError { name } => {
                let m = "Failure to parse: ".to_owned();
                m.concat(name.as_str())
            },
        }
    }
}

impl HashType {
    /// Creates a new HashType from a method, carrying its canonical name.
    pub fn new(method: HashMethod) -> (r: HashType)
        ensures
            r.spec_method() == method,
            r.spec_name() == spec_name_of(method),
    {
        let name: String = match method {
            HashMethod::Mean => "Mean".to_owned(),
            HashMethod::Block => "Block".to_owned(),
            HashMethod::Gradient => "Gradient".to_owned(),
            HashMethod::DoubleGradient => "DoubleGradient".to_owned(),
            HashMethod::Dct => "DCT".to_owned(),
        };
        HashType { method, name }
    }

    /// The method this HashType selects.
    pub fn method(&self) -> (r: HashMethod)
        ensures
            r == self.spec_method(),
    {
        self.method
    }

    /// The display name of the method.
    pub fn name(&self) -> (r: &String)
        ensures
            r@ == self.spec_name(),
    {
        &self.name
    }

    /// Spec-level view of the selected method.
    pub closed spec fn spec_method(&self) -> HashMethod {
        self.method
    }

    /// Spec-level view of the display name.
    pub closed spec fn spec_name(&self) -> Seq<char> {
        self.name@
    }

    /// Resolves a method name. The match is exact against the closed set of
    /// canonical names; an unrecognized name is rejected, never replaced by
    /// the default.
    pub fn from_name(s: &str) -> (r: Result<HashType, HashTypeError>)
        ensures
            (match spec_parse_method(s@) {
                Some(m) => r matches Ok(t) && t.spec_method() == m && t.spec_name() == s@,
                None => r matches Err(HashTypeError::InvalidHashError { name }) && name@
                    == s@,
            }),
    {
        if eq_str(s, "Mean") {
            Ok(HashType::new(HashMethod::Mean))
        } else if eq_str(s, "Block") {
            Ok(HashType::new(HashMethod::Block))
        } else if eq_str(s, "Gradient") {
            Ok(HashType::new(HashMethod::Gradient))
        } else if eq_str(s, "DoubleGradient") {
            Ok(HashType::new(HashMethod::DoubleGradient))
        } else if eq_str(s, "DCT") {
            Ok(HashType::new(HashMethod::Dct))
        } else {
            Err(HashTypeError::InvalidHashError { name: s.to_owned() })
        }
    }

    /// Lists the available hashing methods and their descriptions, in a fixed
    /// order that is stable across calls.
    pub fn available_methods() -> (r: Vec<(String, String)>)
        ensures
            r@.len() == 5,
            r@[0].0@ == "Block"@,
            r@[0].1@ == "The Blockhash.io algorithm.  Fastest, but also inaccurate."@,
            r@[1].0@ == "Mean"@,
            r@[1].1@ == "Averages pixels.  Fast, but inaccurate unless looking for exact duplicates."@,
            r@[2].0@ == "Gradient"@,
            r@[2].1@ == "Compares edges and color boundaries.  More accurate than mean."@,
            r@[3].0@ == "DoubleGradient"@,
            r@[3].1@ == "Gradient but with an extra hash pass.  Slower, but more accurate."@,
            r@[4].0@ == "DCT"@,
            r@[4].1@ == "Runs a Discrete Cosine Transform.  Slowest, but can detect color changes."@,
    {
        let mut r: Vec<(String, String)> = Vec::new();
        r.push(
            (
                "Block".to_owned(),
                "The Blockhash.io algorithm.  Fastest, but also inaccurate.".to_owned(),
            ),
        );
        r.push(
            (
                "Mean".to_owned(),
                "Averages pixels.  Fast, but inaccurate unless looking for exact duplicates.".to_owned(),
            ),
        );
        r.push(
            (
                "Gradient".to_owned(),
                "Compares edges and color boundaries.  More accurate than mean.".to_owned(),
            ),
        );
        r.push(
            (
                "DoubleGradient".to_owned(),
                "Gradient but with an extra hash pass.  Slower, but more accurate.".to_owned(),
            ),
        );
        r.push(
            (
                "DCT".to_owned(),
                "Runs a Discrete Cosine Transform.  Slowest, but can detect color changes.".to_owned(),
            ),
        );
        r
    }
}

impl Default for HashType {
    /// The default method, used when the caller does not select one.
    fn default() -> (r: HashType)
        ensures
            r.spec_method() == HashMethod::Gradient,
            r.spec_name() == spec_name_of(HashMethod::Gradient),
    {
        HashType::new(HashMethod::Gradient)
    }
}

} // verus!
