//! Outcome and error types for the batch resource loader.

use vstd::prelude::*;

verus! {

/// The platform error recorded for a resource whose fetch failed.
///
/// The loader never inspects the message; it only stores it so the caller
/// can report why a particular resource could not be fetched.
pub struct FetchError {
    pub message: String,
}

/// The state of one entry of the ledger.
///
/// `Pending` marks a seeded entry whose fetch has not yet resolved; it is an
/// explicit tag, so a successful zero-length fetch (`Success` with an empty
/// buffer) is never mistaken for an entry that has not arrived yet.
pub enum LoadOutcome {
    Pending,
    Success(Vec<u8>),
    Failure(FetchError),
}

impl LoadOutcome {
    /// A terminal outcome: the fetch has resolved, with or without bytes.
    pub open spec fn is_terminal(&self) -> bool {
        !(self is Pending)
    }

    /// The bytes of a successful outcome.
    pub open spec fn success_bytes(&self) -> Seq<u8>
        recommends
            self is Success,
    {
        match self {
            LoadOutcome::Success(bytes) => bytes@,
            _ => Seq::empty(),
        }
    }
}

/// The errors surfaced by the lookup API.
#[derive(Debug)]
pub enum Error {
    /// The identifier was never requested, or its fetch has not resolved yet.
    NotLoaded,
    /// The identifier was requested and its fetch terminated in failure.
    LoadFailed,
    /// The bytes were fetched but could not be decoded as an image.
    Image(image::ImageError),
}

/// Declares `image::ImageError`, the image crate's decode error, so that it
/// can be carried opaquely inside [`Error::Image`].
#[verifier::external_type_specification]
#[verifier::external_body]
pub struct ExImageError(image::ImageError);

} // verus!
