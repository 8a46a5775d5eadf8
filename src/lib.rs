//! Infrastructure for packers: selects a package of a workspace, finds the
//! packing section in its metadata and decodes it.
//!
//! The section lies under `[package.metadata.pack]` in a package's manifest:
//!
//! ```toml
//! [package.metadata.pack]
//! # reserved for later use
//! default-packers = ["docker"]
//! # files to pack besides the binaries
//! files = ["README.md"]
//! ```
pub mod config;
pub mod error;
pub mod pack;
pub mod package;
pub mod value;

pub use config::{decode_pack_config, find_section, load_config, PackConfig};
pub use error::PackError;
pub use pack::CargoPack;
pub use package::{find_package, Metadata, Package};
pub use value::{lookup, lookup_ref, Value};
