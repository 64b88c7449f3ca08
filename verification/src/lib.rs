//! Windows resources for Rust programs: version information, an icon and a
//! manifest, compiled by the resource compiler of a Windows SDK or by the GNU
//! tools and linked into the executable.
//!
//! The library decides and computes; it touches neither disk nor registry,
//! and starts no program. Whoever uses it, a build script as a rule, does
//! that part:
//!
//! - [`registry`] reads the registry's record of the installed Windows Kits
//!   from the text of the answer to a query.
//! - [`probe`] says what to look for on disk, and [`files`] holds what was
//!   found.
//! - [`sdk`] lists the SDKs with their tools, and [`resolve`] chooses the
//!   resource compiler: the one of a pinned SDK version, or else the one of
//!   the greatest version.
//! - [`resource`] holds the description of a resource as it is configured,
//!   and renders the resource script; [`descriptor`] says what the script is.
//!   [`metadata`] takes string properties from the package manifest.
//! - [`compile`] leads through the run of the tools, one step at a time.
//!
//! [`escape`], [`number`], [`text`], [`textmap`], [`path`] and [`version`]
//! serve the others.
//!
//! Every function states what it returns, and the statements are proved.
//! What is taken on trust is little and marked as such: that `String::push`
//! appends a character, and what `std::path::Path::join` and the `toml` crate
//! compute, which is given a name and left at that.

pub mod compile;
pub mod descriptor;
pub mod escape;
pub mod files;
pub mod metadata;
pub mod number;
pub mod path;
pub mod probe;
pub mod registry;
pub mod resolve;
pub mod resource;
pub mod sdk;
pub mod text;
pub mod textmap;
pub mod version;

pub use descriptor::VersionInfo;
pub use escape::escape_string;
pub use resolve::get_sdk;
pub use resource::WindowsResource;
