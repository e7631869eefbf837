//! Verified core of a small toolchain-management helper.
//!
//! The library contains the decision logic of three operations around an
//! external toolchain manager: probing the manager's own version, expanding a
//! textual version range such as `1.31..1.50` into the list of minor-release
//! toolchain names it denotes, and deciding whether (and how) a toolchain
//! install command must be invoked.  All subprocess output enters these
//! functions as plain string values; running the commands themselves is left
//! to an unverified shell around the library.

pub mod error;
pub mod laws;
pub mod probe;
pub mod range;
pub mod text;
pub mod toolchain;
pub mod version;

pub use error::Error;
pub use probe::minor_version;
pub use range::version_range;
pub use probe::Rustup;
pub use toolchain::install_toolchain;
pub use toolchain::InstallCommand;
pub use version::Version;
