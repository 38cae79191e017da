pub mod fetch;
pub mod nar;
pub mod normalize;
pub mod patch;
pub mod prefetch;
pub mod tarball;
pub mod unified;
pub mod version;

pub use fetch::{GitFetcher, GitRef, RefKind, RefType};
pub use nar::{flat_hash, NarHash};
pub use normalize::{normalize_patch, PatchHasher};
pub use version::VersionDetector;
