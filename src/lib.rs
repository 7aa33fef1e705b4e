//! Build version identifiers: the canonical version string of a build, the
//! bare semantic version read back out of it, the short commit prefix, and a
//! platform-qualified form for display.

use vstd::prelude::*;

pub mod decompose;
pub mod platform;
pub mod synthesize;

pub use decompose::version;
pub use platform::version_with_platform;

verus! {

/// Text that every canonical version string starts with.
pub const VERSION_PREFIX: &'static str = "Lighthouse/v";

/// The semantic version of this build, `MAJOR.MINOR.PATCH`.
pub const VERSION_LITERAL: &'static str = "6.0.1";

/// The canonical version string of a build without repository metadata.
pub const FALLBACK_VERSION: &'static str = "Lighthouse/v6.0.1";

/// The commit prefix reported when no repository metadata is available.
pub const COMMIT_PREFIX_SENTINEL: &'static str = "00000000";

} // verus!
