//! Load-time layout checking for types shared between separately compiled
//! binaries.
//!
//! A binary describes each of its types by a layout
//! ([`type_layout::TypeLayout`]). Before memory written by one binary is read
//! by another, the layouts that both hold for a type are compared by
//! [`abi_stability::abi_checking::check_layout_compatibility`], which lists
//! every way in which they disagree.
//!
//! Structs that are only reached through references may grow fields at their
//! end ([`prefix_type`]). Facts about a type that its structure does not show
//! are recorded in a tag ([`tag`]).

pub mod abi_stability;
pub mod erased_types;
pub mod prefix_type;
pub mod reflection;
pub mod sabi_trait;
pub mod sabi_types;
pub mod std_types;
pub mod tag;
pub mod type_layout;
pub mod utils;
