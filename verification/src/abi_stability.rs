//! Layouts of whole types, and the check that two of them agree.

pub mod abi_checking;
pub mod checked_layouts;
pub mod compatibility_laws;
pub mod stable_abi_trait;
pub mod std_impls;
