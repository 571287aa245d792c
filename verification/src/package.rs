//! A protobuf package: a named group of files.

use vstd::prelude::*;

verus! {

/// A package declaration, with the names of the files that live in it.
#[derive(Debug, Clone, PartialEq)]
pub struct Package {
    pub name: String,
    pub is_well_known: bool,
    pub files: Vec<String>,
}

impl Package {
    /// The package's declared name.
    pub fn name(&self) -> (r: &str)
        ensures
            r@ == self.name@,
    {
        self.name.as_str()
    }

    /// Whether the package is one of the well-known protobuf packages.
    pub fn is_well_known(&self) -> (r: bool)
        ensures
            r == self.is_well_known,
    {
        self.is_well_known
    }

    /// The names of the files the package holds.
    pub fn files(&self) -> (r: &Vec<String>)
        ensures
            r@ == self.files@,
    {
        &self.files
    }
}

} // verus!
