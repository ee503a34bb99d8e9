//! A small value type for semantic version numbers.
//!
//! Two variants are offered, matching two common flavours of the concept:
//! [`Version`] carries `major.minor.patch` and an optional numeric build
//! number, while [`TaggedVersion`] carries `major.minor.patch` and a
//! release / beta / alpha maturity qualifier. Both order totally and format
//! to text; [`TaggedVersion`] can also be parsed from a `"M.m.p"` string.

pub mod digits;
pub mod parse;
pub mod tagged;
pub mod version;

pub use parse::ParseError;
pub use tagged::TaggedVersion;
pub use tagged::VersionType;
pub use version::Version;
pub use version::version_from_pkg;
