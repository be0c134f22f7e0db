//! What the packet layer knows of a transport: the type of its errors.

use vstd::prelude::*;

verus! {

/// The error type of a transport.
pub trait TransportError {

}

/// Stands for the error of a transport where none is involved.
#[derive(Debug, Clone, Copy, PartialEq, Eq, Structural)]
pub struct ErrorPlaceHolder;

impl TransportError for ErrorPlaceHolder {

}

} // verus!
