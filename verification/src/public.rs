//! The public connection surface.
//!
//! Opening a connection to a concrete server is the work of the
//! application around the library; the types here only name that surface.

use vstd::prelude::*;

verus! {

/// A handle to an open connection.
#[derive(Debug)]
#[non_exhaustive]
pub struct Handle {}

/// The parameters of a connection to open.
#[derive(Debug)]
#[non_exhaustive]
pub struct ConnectionParams {}

} // verus!
