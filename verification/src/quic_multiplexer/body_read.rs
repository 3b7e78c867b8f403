//! Collecting what a stream has to offer into one chunk.

use crate::buffers::{bytes_mut_as_mut_slice, bytes_mut_freeze, bytes_mut_truncate, bytes_mut_zeroed};
use crate::failure::{Failure, FailureKind, H3Error};
use bytes::{Bytes, BytesMut};
use vstd::prelude::*;

verus! {

/// The most bytes that one read hands out.
pub const READ_CHUNK_SIZE: usize = 65536;

/// A read that goes on: a buffer that is filled from the front.
pub struct BodyRead {
    buffer: BytesMut,
    read_offset: usize,
}

/// What a read comes to after the stream was asked for more.
pub enum BodyReadStep {
    /// Ask again.
    Continue(BodyRead),
    /// Hand these bytes out.
    Deliver(Bytes),
    /// There is nothing to hand out for now.
    Nothing,
    Fail(Failure),
}

impl BodyRead {
    /// The bytes of the buffer, those not read yet too.
    pub closed spec fn content(&self) -> Seq<u8> {
        crate::buffers::bytes_mut_content(self.buffer)
    }

    /// How many bytes were read.
    pub closed spec fn offset(&self) -> int {
        self.read_offset as int
    }

    /// The bytes that were read, in the order in which they came.
    pub open spec fn received(&self) -> Seq<u8> {
        self.content().take(self.offset())
    }

    /// There is room for more.
    pub open spec fn wf(&self) -> bool {
        &&& self.content().len() == READ_CHUNK_SIZE
        &&& 0 <= self.offset() < READ_CHUNK_SIZE
    }

    /// A read that has received nothing yet.
    pub fn new() -> (read: BodyRead)
        ensures
            read.wf(),
            read.offset() == 0,
            read.content().len() == 65536,
            read.received().len() == 0,
    {
        BodyRead { buffer: bytes_mut_zeroed(READ_CHUNK_SIZE), read_offset: 0 }
    }

    /// Where the next bytes of the stream go.
    pub fn unfilled(&mut self) -> (room: &mut [u8])
        requires
            old(self).wf(),
        ensures
            room@.len() == READ_CHUNK_SIZE - old(self).offset(),
            room@.len() == 65536 - old(self).offset(),
            final(self).wf(),
            final(self).offset() == old(self).offset(),
            final(self).content() == old(self).received() + final(room)@,
    {
        let at: usize = self.read_offset;
        bytes_mut_as_mut_slice(&mut self.buffer).split_at_mut(at).1
    }

    /// Goes on after the stream was asked to fill the buffer: `received` says how many bytes it
    /// put there. The chunk is handed out when it is full or when the stream has no more.
    pub fn on_body(self, received: Result<usize, H3Error>) -> (step: BodyReadStep)
        requires
            self.wf(),
            received matches Ok(n) ==> self.offset() + n <= READ_CHUNK_SIZE,
        ensures
            match received {
                Ok(n) => if self.offset() + n == READ_CHUNK_SIZE {
                    step matches BodyReadStep::Deliver(chunk) && crate::buffers::bytes_content(chunk)
                        == self.content()
                } else {
                    step matches BodyReadStep::Continue(read) && read.wf() && read.offset()
                        == self.offset() + n && read.content() == self.content()
                },
                Err(H3Error::Done) => if self.offset() > 0 {
                    step matches BodyReadStep::Deliver(chunk) && crate::buffers::bytes_content(chunk)
                        == self.received()
                } else {
                    step is Nothing
                },
                Err(e) => step matches BodyReadStep::Fail(failure) && failure@
                    == crate::failure::failure_text(
                    FailureKind::Other,
                    crate::failure::h3_error_text(e),
                ),
            },
    {
        let mut read = self;
        match received {
            Ok(n) => {
                read.read_offset = read.read_offset + n;
                if read.read_offset == READ_CHUNK_SIZE {
                    BodyReadStep::Deliver(bytes_mut_freeze(read.buffer))
                } else {
                    BodyReadStep::Continue(read)
                }
            },
            Err(H3Error::Done) => {
                if read.read_offset > 0 {
                    bytes_mut_truncate(&mut read.buffer, read.read_offset);
                    BodyReadStep::Deliver(bytes_mut_freeze(read.buffer))
                } else {
                    BodyReadStep::Nothing
                }
            },
            Err(e) => BodyReadStep::Fail(Failure::new(FailureKind::Other, e.to_text())),
        }
    }
}

} // verus!
