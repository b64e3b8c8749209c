//! The numbers that the enclave and the runner have agreed on.
//!
//! The constants state the agreed values for contracts. Executable code takes
//! each number from `fortanix_sgx_abi`, so that the two cannot drift apart
//! unnoticed.
use vstd::prelude::*;

verus! {

/// A file descriptor, as the enclave sees it.
pub type Fd = fortanix_sgx_abi::Fd;

/// The descriptor of the standard input.
pub const FD_STDIN: Fd = 0;

/// The descriptor of the standard output.
pub const FD_STDOUT: Fd = 1;

/// The descriptor of the standard error.
pub const FD_STDERR: Fd = 2;

/// The usercall queue is not, or no longer, full.
pub const EV_USERCALLQ_NOT_FULL: u64 = 0b0001;

/// The return queue is not, or no longer, empty.
pub const EV_RETURNQ_NOT_EMPTY: u64 = 0b0010;

/// An event that enclaves use for synchronization.
pub const EV_UNPARK: u64 = 0b0100;

/// The runner's own event: the enclave is going down. No enclave may send it.
pub const EV_ABORT: u64 = 0b1000;

/// All the events that an enclave may send and wait for.
pub const EV_ALL: u64 = 0b0111;

/// A wait that returns at once.
pub const WAIT_NO: u64 = 0;

/// A wait that returns when an event has come.
pub const WAIT_INDEFINITE: u64 = 0xffff_ffff_ffff_ffff;

/// `fortanix_sgx_abi::FD_STDIN`, which its source gives as 0.
#[verifier::external_body]
pub(crate) fn fd_stdin() -> (fd: Fd)
    ensures
        fd == FD_STDIN,
{
    fortanix_sgx_abi::FD_STDIN
}

/// `fortanix_sgx_abi::FD_STDOUT`, which its source gives as 1.
#[verifier::external_body]
pub(crate) fn fd_stdout() -> (fd: Fd)
    ensures
        fd == FD_STDOUT,
{
    fortanix_sgx_abi::FD_STDOUT
}

/// `fortanix_sgx_abi::FD_STDERR`, which its source gives as 2.
#[verifier::external_body]
pub(crate) fn fd_stderr() -> (fd: Fd)
    ensures
        fd == FD_STDERR,
{
    fortanix_sgx_abi::FD_STDERR
}

/// `fortanix_sgx_abi::EV_USERCALLQ_NOT_FULL`, which its source gives as bit 0.
#[verifier::external_body]
pub(crate) fn ev_usercallq_not_full() -> (ev: u64)
    ensures
        ev == EV_USERCALLQ_NOT_FULL,
{
    fortanix_sgx_abi::EV_USERCALLQ_NOT_FULL
}

/// `fortanix_sgx_abi::EV_RETURNQ_NOT_EMPTY`, which its source gives as bit 1.
#[verifier::external_body]
pub(crate) fn ev_returnq_not_empty() -> (ev: u64)
    ensures
        ev == EV_RETURNQ_NOT_EMPTY,
{
    fortanix_sgx_abi::EV_RETURNQ_NOT_EMPTY
}

/// `fortanix_sgx_abi::EV_UNPARK`, which its source gives as bit 2.
#[verifier::external_body]
pub(crate) fn ev_unpark() -> (ev: u64)
    ensures
        ev == EV_UNPARK,
{
    fortanix_sgx_abi::EV_UNPARK
}

/// `fortanix_sgx_abi::WAIT_NO`, which its source gives as 0.
#[verifier::external_body]
pub(crate) fn wait_no() -> (timeout: u64)
    ensures
        timeout == WAIT_NO,
{
    fortanix_sgx_abi::WAIT_NO
}

/// `fortanix_sgx_abi::WAIT_INDEFINITE`, which its source gives as all bits set.
#[verifier::external_body]
pub(crate) fn wait_indefinite() -> (timeout: u64)
    ensures
        timeout == WAIT_INDEFINITE,
{
    fortanix_sgx_abi::WAIT_INDEFINITE
}

} // verus!
