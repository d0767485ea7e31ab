//! How a type takes part in runtime reflection on modules.

use vstd::prelude::*;

verus! {

/// Whether, and how, the definition of a type can be reflected on at runtime.
#[derive(Debug, Clone, Copy, PartialEq, Eq, Structural)]
pub enum ModReflMode {
    /// The type is a module whose public fields are reflected on.
    Module,
    /// The layout of the type cannot be iterated over.
    Opaque,
    /// Reflection is delegated to the type of a phantom field, as for
    /// references.
    DelegateDeref {
        /// The index of the phantom field that reflection is delegated to.
        phantom_field_index: usize,
    },
}

impl Default for ModReflMode {
    fn default() -> (mode: Self)
        ensures
            mode == ModReflMode::Opaque,
    {
        ModReflMode::Opaque
    }
}

} // verus!
