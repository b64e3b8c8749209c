//! Network addresses, and descriptors for connections.
use crate::abi::Fd;
use crate::error::ErrorKind;
use crate::fd::FileDesc;
use crate::state::EnclaveState;
use vstd::prelude::*;
use vstd::utf8::{encode_utf8, encode_utf8_decode_utf8, encode_utf8_valid_utf8, valid_utf8};

verus! {

/// `std::str::from_utf8`: the string that `bytes` encode, if they encode one.
#[verifier::external_body]
fn str_from_utf8(bytes: &[u8]) -> (text: Option<&str>)
    ensures
        text is Some <==> valid_utf8(bytes@),
        text matches Some(t) ==> encode_utf8(t@) == bytes@,
{
    std::str::from_utf8(bytes).ok()
}

/// The network address that an enclave has written as `addr`.
pub fn parse_address(addr: &[u8]) -> (parsed: Result<&str, ErrorKind>)
    ensures
        valid_utf8(addr@) ==> parsed is Ok && encode_utf8(parsed->Ok_0@) == addr@,
        !valid_utf8(addr@) ==> parsed == Err::<&str, ErrorKind>(ErrorKind::ConnectionRefused),
{
    match str_from_utf8(addr) {
        Some(text) => Ok(text),
        None => Err(ErrorKind::ConnectionRefused),
    }
}

/// What an enclave is told of an address that could not be found out.
pub open spec fn address_text<E>(address: Result<String, E>) -> Seq<char> {
    match address {
        Ok(a) => a@,
        Err(_) => "error"@,
    }
}

/// The address as a string, or a word that says that there is none.
pub fn address_or_error<E>(address: Result<String, E>) -> (text: String)
    ensures
        text@ == address_text(address),
        address matches Ok(a) ==> text@ == a@,
        address is Err ==> text@ == "error"@,
{
    match address {
        Ok(a) => a,
        Err(_) => "error".to_string(),
    }
}

/// The bytes of `address` that an enclave is given, if it asked for them.
fn address_bytes(address: Option<String>) -> (bytes: Option<Vec<u8>>)
    ensures
        bytes is Some <==> address is Some,
        bytes matches Some(b) ==> b@ == encode_utf8(address->0@),
{
    match address {
        Some(a) => Some(a.as_str().as_bytes_vec()),
        None => None,
    }
}

/// What an enclave gets back for a new connection.
#[derive(Debug, PartialEq, Eq)]
pub struct Connected {
    /// The descriptor.
    pub fd: Fd,
    /// The address at this end, if the enclave asked for it.
    pub local_addr: Option<Vec<u8>>,
    /// The address at the other end, if the enclave asked for it.
    pub peer_addr: Option<Vec<u8>>,
}

/// Whether `bytes` tell of the address `text`, if it was asked for.
pub open spec fn tells(bytes: Option<Vec<u8>>, text: Option<Seq<char>>) -> bool {
    match text {
        Some(t) => bytes matches Some(b) && b@ == encode_utf8(t),
        None => bytes is None,
    }
}

/// An address that an enclave was told can be handed back: it parses, and to no other string.
pub proof fn law_told_address_parses(told: Seq<char>, parsed: Seq<char>)
    ensures
        valid_utf8(encode_utf8(told)),
        encode_utf8(parsed) == encode_utf8(told) ==> parsed == told,
{
    encode_utf8_valid_utf8(told);
    encode_utf8_decode_utf8(told);
    encode_utf8_decode_utf8(parsed);
}

/// An enclave is told of an address exactly if it asked for it, and then in the bytes that encode
/// it. An address that is known is told as it is, and one that is not as the word "error".
pub proof fn law_address_is_told<E>(
    bytes: Option<Vec<u8>>,
    text: Option<Seq<char>>,
    address: Result<String, E>,
)
    ensures
        tells(bytes, text) <==> {
            ||| text is None && bytes is None
            ||| text is Some && bytes is Some && bytes->0@ == encode_utf8(text->0)
        },
        address is Ok ==> address_text(address) == address->Ok_0@,
        address is Err ==> address_text(address) == "error"@,
{
}

impl<T, S, L> EnclaveState<T, S, L> {
    /// Gives a socket that has been bound a descriptor. `local` is its address, if the
    /// enclave asked for it; if that could not be found out the call fails.
    pub fn bind_stream_end<E>(&mut self, socket: L, local: Option<Result<String, E>>) -> (bound:
        Result<Connected, E>)
        requires
            old(self).wf(),
            local matches Some(Err(_)) || old(self)@.last_fd < usize::MAX,
        ensures
            final(self).wf(),
            match bound {
                Ok(c) => {
                    &&& !(local matches Some(Err(_)))
                    &&& c.fd == old(self)@.last_fd + 1
                    &&& tells(
                        c.local_addr,
                        match local {
                            Some(Ok(a)) => Some(a@),
                            _ => None,
                        },
                    )
                    &&& c.peer_addr is None
                    &&& final(self)@ == old(self)@.with_new_fd(FileDesc::Listener(socket))
                },
                Err(e) => local == Some(Err::<String, E>(e)) && final(self)@ == old(self)@,
            },
    {
        let local: Option<String> = match local {
            Some(Ok(a)) => Some(a),
            Some(Err(e)) => {
                return Err(e);
            },
            None => None,
        };
        let local_addr = address_bytes(local);
        let fd: Fd = self.alloc_fd(FileDesc::listener(socket));
        Ok(Connected { fd, local_addr, peer_addr: None })
    }

    /// Gives a connection that has been accepted a descriptor. `local` and `peer` are the
    /// addresses of its ends, as far as the enclave asked for them.
    pub fn accept_stream_end(
        &mut self,
        stream: S,
        local: Option<String>,
        peer: Option<String>,
    ) -> (accepted: Connected)
        requires
            old(self).wf(),
            old(self)@.last_fd < usize::MAX,
        ensures
            final(self).wf(),
            accepted.fd == old(self)@.last_fd + 1,
            tells(
                accepted.local_addr,
                match local {
                    Some(a) => Some(a@),
                    None => None,
                },
            ),
            tells(
                accepted.peer_addr,
                match peer {
                    Some(a) => Some(a@),
                    None => None,
                },
            ),
            final(self)@ == old(self)@.with_new_fd(FileDesc::Stream(stream)),
    {
        let local_addr = address_bytes(local);
        let peer_addr = address_bytes(peer);
        let fd: Fd = self.alloc_fd(FileDesc::stream(stream));
        Connected { fd, local_addr, peer_addr }
    }

    /// Gives a connection that has been made a descriptor. `local` and `peer` are the
    /// addresses of its ends, as far as the enclave asked for them.
    pub fn connect_stream_end<E>(
        &mut self,
        stream: S,
        local: Option<Result<String, E>>,
        peer: Option<Result<String, E>>,
    ) -> (connected: Connected)
        requires
            old(self).wf(),
            old(self)@.last_fd < usize::MAX,
        ensures
            final(self).wf(),
            connected.fd == old(self)@.last_fd + 1,
            tells(
                connected.local_addr,
                match local {
                    Some(a) => Some(address_text(a)),
                    None => None,
                },
            ),
            tells(
                connected.peer_addr,
                match peer {
                    Some(a) => Some(address_text(a)),
                    None => None,
                },
            ),
            final(self)@ == old(self)@.with_new_fd(FileDesc::Stream(stream)),
    {
        let local: Option<String> = match local {
            Some(a) => Some(address_or_error(a)),
            None => None,
        };
        let peer: Option<String> = match peer {
            Some(a) => Some(address_or_error(a)),
            None => None,
        };
        self.accept_stream_end(stream, local, peer)
    }
}

} // verus!
