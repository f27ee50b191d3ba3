//! The source of the configuration that reads a configuration file.
use vstd::prelude::*;

verus! {

/// Provides the router configuration from the configuration file at `file_path`.
pub struct ConfigFileProvider {
    file_path: String,
}

impl ConfigFileProvider {
    /// The path of the configuration file.
    pub closed spec fn spec_file_path(&self) -> Seq<char> {
        self.file_path@
    }

    /// A provider reading the file at `file_path`.
    pub fn new(file_path: &str) -> (r: ConfigFileProvider)
        ensures
            r.spec_file_path() == file_path@,
    {
        ConfigFileProvider { file_path: file_path.to_owned() }
    }

    /// The path of the configuration file.
    pub fn file_path(&self) -> (r: &str)
        ensures
            r@ == self.spec_file_path(),
    {
        self.file_path.as_str()
    }
}

} // verus!
