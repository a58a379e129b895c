//! Scanner configuration: the directory to scan, the hashing method, the
//! hash-size parameter and the verbosity level, with their defaults.
use vstd::prelude::*;

use crate::hash_type::{HashMethod, HashType, spec_name_of};

verus! {

/// Configuration of the scanner.
pub struct Config {
    /// The directory to scan.
    pub directory: String,
    /// The hashing method to use.
    pub method: HashType,
    /// The square root of the length of the hash.
    pub hash_size: u32,
    /// Verbosity of external logging; not used by the pipeline itself.
    pub verbosity: u8,
}

impl Config {
    /// Set the directory on the Config item.
    pub fn set_directory(&mut self, dir: &str)
        ensures
            final(self).directory@ == dir@,
            final(self).method == old(self).method,
            final(self).hash_size == old(self).hash_size,
            final(self).verbosity == old(self).verbosity,
    {
        self.directory = dir.to_owned();
    }

    /// Set the method on the Config item.
    pub fn set_method(&mut self, method: HashType)
        ensures
            final(self).method == method,
            final(self).directory == old(self).directory,
            final(self).hash_size == old(self).hash_size,
            final(self).verbosity == old(self).verbosity,
    {
        self.method = method;
    }
}

impl Default for Config {
    fn default() -> (r: Config)
        ensures
            r.directory@ == "."@,
            r.method.spec_method() == HashMethod::Gradient,
            r.method.spec_name() == spec_name_of(HashMethod::Gradient),
            r.hash_size == 16,
            r.verbosity == 0,
    {
        Config {
            directory: ".".to_owned(),
            method: HashType::default(),
            hash_size: 16,
            verbosity: 0,
        }
    }
}

} // verus!
