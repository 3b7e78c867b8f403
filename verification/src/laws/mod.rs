//! What the operations of the library are for, stated over what goes in and what comes out.

pub mod batches;
pub mod clients;
pub mod deadlines;
pub mod framing;
pub mod limits;
pub mod packets;
pub mod requests;
pub mod responses;
pub mod streams;
pub mod texts;
