//! The standard streams, and reading into a buffer of the runner's own.
use crate::error::ErrorKind;
use vstd::prelude::*;

verus! {

/// How much is read at once when the runner chooses the amount.
pub const READ_ALLOC_LEN: usize = 8192;

/// The way in which data can go through a stream.
#[derive(Clone, Copy, Debug, PartialEq, Eq, Structural)]
pub enum Direction {
    /// Towards the enclave only.
    ReadOnly,
    /// Away from the enclave only.
    WriteOnly,
}

impl Direction {
    /// Whether the stream can be read.
    pub fn check_read(&self) -> (checked: Result<(), ErrorKind>)
        ensures
            checked == (match *self {
                Direction::ReadOnly => Ok::<(), ErrorKind>(()),
                Direction::WriteOnly => Err::<(), ErrorKind>(ErrorKind::BrokenPipe),
            }),
    {
        match self {
            Direction::ReadOnly => Ok(()),
            Direction::WriteOnly => Err(ErrorKind::BrokenPipe),
        }
    }

    /// Whether the stream can be written and flushed.
    pub fn check_write(&self) -> (checked: Result<(), ErrorKind>)
        ensures
            checked == (match *self {
                Direction::ReadOnly => Err::<(), ErrorKind>(ErrorKind::BrokenPipe),
                Direction::WriteOnly => Ok::<(), ErrorKind>(()),
            }),
    {
        match self {
            Direction::ReadOnly => Err(ErrorKind::BrokenPipe),
            Direction::WriteOnly => Ok(()),
        }
    }
}

/// The first `len` bytes of `buf`: what a stream has put there.
pub fn read_alloc_end(buf: &[u8], len: usize) -> (data: Vec<u8>)
    requires
        len <= buf@.len(),
    ensures
        data@ == buf@.take(len as int),
{
    let mut data: Vec<u8> = Vec::new();
    let mut i: usize = 0;
    while i < len
        invariant
            i <= len <= buf@.len(),
            data@ == buf@.take(i as int),
        decreases len - i,
    {
        data.push(buf[i]);
        i = i + 1;
        assert(data@ =~= buf@.take(i as int));
    }
    data
}

} // verus!
