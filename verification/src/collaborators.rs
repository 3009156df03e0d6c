//! The importer and the snapshot service that a scheduler is built with beside
//! the header store. Neither has any behaviour of its own in this crate.

use vstd::prelude::*;

verus! {

/// An importer that imports nothing.
#[derive(Clone, Copy, Debug, PartialEq, Eq, Default)]
pub struct DummyImporter();

/// A snapshot service that holds no snapshot.
#[derive(Clone, Copy, Debug, PartialEq, Eq, Default)]
pub struct DummySnapshot();

} // verus!
