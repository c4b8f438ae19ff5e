//! A batch resource loader: accepts a set of named resource identifiers,
//! tracks the outcome of each fetch in a shared ledger, reports progress,
//! and hands the fully resolved ledger to the caller exactly once.

pub mod batch;
pub mod loader;
pub mod model;
pub mod outcome;
pub mod result_map;

pub use batch::LoadBatch;
pub use loader::Loader;
pub use batch::PollState;
pub use batch::Progress;
pub use outcome::Error;
pub use result_map::ResultMap;
pub use outcome::FetchError;
pub use outcome::LoadOutcome;
