//! Types shared by every part of the crate.

use vstd::prelude::*;

verus! {

/// The kind of a media item. It selects the key of the history query and the
/// variant of the watch history that is built from the answer.
#[derive(Debug, Clone, Copy, PartialEq, Eq, Structural)]
pub enum MediaType {
    Movie,
    Tv,
}

} // verus!
