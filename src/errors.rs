//! Errors of the geometric value types and of the viewport.
use vstd::prelude::*;

verus! {

/// A geometric value was refused.
#[derive(Debug, Clone, PartialEq, Eq)]
pub enum TypeError {
    InvalidValue(String),
}

/// A viewport size or coordinate was refused.
#[derive(Debug, Clone, PartialEq, Eq)]
pub enum ViewportError {
    InvalidSize(String),
    InvalidValue(String),
}

} // verus!
