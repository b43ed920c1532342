//! Finds the most recent published toolchain release whose components are all
//! available for the installed target.
//!
//! A release is published per day and channel, with a descriptor that tells
//! which packages it offers for which targets ([`manifest`]). The installed
//! toolchain is captured once ([`toolchain`]); the resolver then walks back
//! from today, day by day, to the nearest release that offers every installed
//! component, and says whether to update, to stay, or to pin an older release
//! ([`resolver`]).
//!
//! The library fetches nothing and reads no file: its callers hand it the
//! texts and take its requests.

pub mod date;
pub mod manifest;
pub mod resolver;
pub mod table;
pub mod text;
pub mod toolchain;
pub mod version;

pub use crate::manifest::{Manifest, Version};
pub use crate::resolver::Rust;
pub use crate::text::print_vec;
