//! The model of the build tool: its version, the statements of its configuration language,
//! and the builder of a whole configuration document.

pub mod builder;
pub mod exec;
pub mod generator;
pub mod version;

pub use builder::Builder;
pub use version::ParseVersionError;
pub use version::Version;
