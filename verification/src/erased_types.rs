//! What is known at runtime of a type whose values are passed around
//! without their type.

pub mod type_info;
