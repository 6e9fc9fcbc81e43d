//! Where files are. A path is a starting point and the names below it; the platform
//! puts them together, so nothing here says what a path looks like.

use crate::text;
use std::path::PathBuf;
use vstd::prelude::*;

verus! {

/// `std::path::PathBuf`, a path of the platform, which need not be Unicode text. It
/// is only carried through.
#[verifier::external_type_specification]
#[verifier::external_body]
pub struct ExPathBuf(PathBuf);

/// Cloning a `PathBuf` gives a path equal to it.
pub assume_specification[ <PathBuf as Clone>::clone ](p: &PathBuf) -> (r: PathBuf)
    ensures
        r == *p,
;

/// Where a location starts.
#[derive(Debug, PartialEq, Eq)]
pub enum Base {
    /// The current directory, `.`.
    Here,
    /// A path of the platform.
    At(PathBuf),
}

/// The path of a file or directory: a starting point, and the names to be joined on
/// to it in turn.
#[derive(Debug, PartialEq, Eq)]
pub struct Location {
    pub base: Base,
    pub below: Vec<String>,
}

/// What a location holds.
#[verifier::ext_equal]
pub struct LocationModel {
    pub base: Base,
    pub below: Seq<Seq<char>>,
}

impl View for Location {
    type V = LocationModel;

    open spec fn view(&self) -> LocationModel {
        LocationModel { base: self.base, below: text::texts(self.below@) }
    }
}

impl Clone for Base {
    fn clone(&self) -> (r: Self)
        ensures
            r == *self,
    {
        match self {
            Base::Here => Base::Here,
            Base::At(p) => Base::At(p.clone()),
        }
    }
}

impl Clone for Location {
    fn clone(&self) -> (r: Self)
        ensures
            r@ == self@,
    {
        Location { base: self.base.clone(), below: text::clone_texts(&self.below) }
    }
}

} // verus!
