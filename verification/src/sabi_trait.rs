//! Getting back the type of a value that was passed around without it.

pub mod robject;
