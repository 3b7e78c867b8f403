//! The application protocols that a client can speak.

use vstd::prelude::*;

verus! {

/// The protocol of a client connection
#[derive(Debug, Clone, Copy, PartialEq, Eq, Structural)]
pub enum Protocol {
    Http1,
    Http2,
    Http3,
}

} // verus!
