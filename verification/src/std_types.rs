//! Plain values that stand for standard library notions in layouts.

pub mod utypeid;
