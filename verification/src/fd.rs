//! What a file descriptor stands for.
use crate::error::ErrorKind;
use vstd::prelude::*;

verus! {

/// An open stream or a socket that listens for connections. `S` and `L` are the
/// handles through which the runner reaches the two.
#[derive(Debug)]
pub enum FileDesc<S, L> {
    /// Something to read from and write to.
    Stream(S),
    /// Something that hands out streams.
    Listener(L),
}

impl<S, L> FileDesc<S, L> {
    /// The descriptor of a stream.
    pub fn stream(s: S) -> (desc: Self)
        ensures
            desc == FileDesc::<S, L>::Stream(s),
    {
        FileDesc::Stream(s)
    }

    /// The descriptor of a listening socket.
    pub fn listener(l: L) -> (desc: Self)
        ensures
            desc == FileDesc::<S, L>::Listener(l),
    {
        FileDesc::Listener(l)
    }

    /// The stream, if this is one.
    pub fn as_stream(&self) -> (stream: Result<&S, ErrorKind>)
        ensures
            stream == (match *self {
                FileDesc::Stream(s) => Ok::<&S, ErrorKind>(&s),
                FileDesc::Listener(_) => Err::<&S, ErrorKind>(ErrorKind::InvalidInput),
            }),
    {
        match self {
            FileDesc::Stream(s) => Ok(s),
            FileDesc::Listener(_) => Err(ErrorKind::InvalidInput),
        }
    }

    /// The listening socket, if this is one.
    pub fn as_listener(&self) -> (listener: Result<&L, ErrorKind>)
        ensures
            listener == (match *self {
                FileDesc::Listener(l) => Ok::<&L, ErrorKind>(&l),
                FileDesc::Stream(_) => Err::<&L, ErrorKind>(ErrorKind::InvalidInput),
            }),
    {
        match self {
            FileDesc::Listener(l) => Ok(l),
            FileDesc::Stream(_) => Err(ErrorKind::InvalidInput),
        }
    }
}

} // verus!
