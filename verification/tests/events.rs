use enclave_usercalls::abi::{
    EV_ABORT, EV_ALL, EV_RETURNQ_NOT_EMPTY, EV_UNPARK, EV_USERCALLQ_NOT_FULL, FD_STDERR, FD_STDIN,
    FD_STDOUT, WAIT_INDEFINITE, WAIT_NO,
};
use enclave_usercalls::error::ErrorKind;
use enclave_usercalls::event::{check_event_set, Wait, ABORT_EVENT};
use enclave_usercalls::running::{EnclaveEntry, RunningTcs};
use enclave_usercalls::state::EnclaveState;
use enclave_usercalls::tcs::{ErasedTcs, TcsAddress};

type Enclave = EnclaveState<&'static str, &'static str, &'static str>;

const A: TcsAddress = TcsAddress(0x1000);
const B: TcsAddress = TcsAddress(0x2000);
const C: TcsAddress = TcsAddress(0x3000);

fn library(addresses: &[TcsAddress]) -> Enclave {
    let threads = addresses.iter().map(|a| ErasedTcs { tcs: "tcs", address: *a }).collect();
    EnclaveState::library(threads, "in", "out", "err")
}

/// An enclave with TCSs at `A` and `B`, and a thread on each.
fn two_threads() -> (Enclave, RunningTcs, RunningTcs) {
    let mut enclave = library(&[A, B]);
    let a = enclave.library_entry_take().unwrap();
    let b = enclave.library_entry_take().unwrap();
    let (_, a) = RunningTcs::entry_begin(a);
    let (_, b) = RunningTcs::entry_begin(b);
    (enclave, a, b)
}

#[test]
fn constants_are_those_of_the_abi() {
    assert_eq!(FD_STDIN, fortanix_sgx_abi::FD_STDIN);
    assert_eq!(FD_STDOUT, fortanix_sgx_abi::FD_STDOUT);
    assert_eq!(FD_STDERR, fortanix_sgx_abi::FD_STDERR);
    assert_eq!(EV_USERCALLQ_NOT_FULL, fortanix_sgx_abi::EV_USERCALLQ_NOT_FULL);
    assert_eq!(EV_RETURNQ_NOT_EMPTY, fortanix_sgx_abi::EV_RETURNQ_NOT_EMPTY);
    assert_eq!(EV_UNPARK, fortanix_sgx_abi::EV_UNPARK);
    assert_eq!(WAIT_NO, fortanix_sgx_abi::WAIT_NO);
    assert_eq!(WAIT_INDEFINITE, fortanix_sgx_abi::WAIT_INDEFINITE);
}

#[test]
fn abort_event_is_apart() {
    assert_eq!(EV_ALL, EV_USERCALLQ_NOT_FULL | EV_RETURNQ_NOT_EMPTY | EV_UNPARK);
    assert_eq!(EV_ALL & EV_ABORT, 0);
    assert!(EV_ALL | EV_ABORT <= u8::MAX as u64);
    assert_eq!(ABORT_EVENT as u64, EV_ABORT);
}

#[test]
fn event_sets_are_checked() {
    assert_eq!(check_event_set(0), Ok(0));
    assert_eq!(check_event_set(5), Ok(5));
    assert_eq!(check_event_set(7), Ok(7));
    assert_eq!(check_event_set(8), Err(ErrorKind::InvalidInput));
    assert_eq!(check_event_set(15), Err(ErrorKind::InvalidInput));
    assert_eq!(check_event_set(1 << 40), Err(ErrorKind::InvalidInput));
}

#[test]
fn sent_event_is_received() {
    let (mut enclave, mut a, mut b) = two_threads();
    assert_eq!(enclave.send(EV_UNPARK, Some(A)), Ok(()));
    assert_eq!(b.wait(&mut enclave, EV_UNPARK, WAIT_NO), Wait::Ready(Err(ErrorKind::WouldBlock)));
    assert_eq!(a.wait(&mut enclave, EV_UNPARK, WAIT_NO), Wait::Ready(Ok(4)));
    assert_eq!(a.wait(&mut enclave, EV_UNPARK, WAIT_NO), Wait::Ready(Err(ErrorKind::WouldBlock)));
}

#[test]
fn send_to_all_reaches_each() {
    let (mut enclave, mut a, mut b) = two_threads();
    assert_eq!(enclave.send(EV_UNPARK | EV_RETURNQ_NOT_EMPTY, None), Ok(()));
    assert_eq!(a.wait(&mut enclave, EV_UNPARK, WAIT_INDEFINITE), Wait::Ready(Ok(6)));
    assert_eq!(b.wait(&mut enclave, EV_RETURNQ_NOT_EMPTY, WAIT_NO), Wait::Ready(Ok(6)));
}

#[test]
fn send_refuses_what_makes_no_sense() {
    let (mut enclave, mut a, _) = two_threads();
    assert_eq!(enclave.send(0, Some(A)), Err(ErrorKind::InvalidInput));
    assert_eq!(enclave.send(0, None), Err(ErrorKind::InvalidInput));
    assert_eq!(enclave.send(EV_ABORT, Some(A)), Err(ErrorKind::InvalidInput));
    assert_eq!(enclave.send(EV_UNPARK, Some(C)), Err(ErrorKind::InvalidInput));
    assert_eq!(a.wait(&mut enclave, EV_ALL, WAIT_NO), Wait::Ready(Err(ErrorKind::WouldBlock)));
}

#[test]
fn first_sent_is_first_received() {
    let (mut enclave, mut a, _) = two_threads();
    for set in [1, 2, 4, 3] {
        assert_eq!(enclave.send(set, Some(A)), Ok(()));
    }
    for set in [1, 2, 4, 3] {
        assert_eq!(a.wait(&mut enclave, EV_ALL, WAIT_NO), Wait::Ready(Ok(set)));
    }
}

#[test]
fn passed_over_events_are_kept_in_order() {
    let (mut enclave, mut a, _) = two_threads();
    for set in [1, 2, 3, 4, 1] {
        assert_eq!(enclave.send(set, Some(A)), Ok(()));
    }
    assert_eq!(a.wait(&mut enclave, EV_UNPARK, WAIT_NO), Wait::Ready(Ok(4)));
    assert_eq!(a.wait(&mut enclave, 2, WAIT_NO), Wait::Ready(Ok(2)));
    assert_eq!(a.wait(&mut enclave, 2, WAIT_NO), Wait::Ready(Ok(3)));
    assert_eq!(a.wait(&mut enclave, 2, WAIT_NO), Wait::Ready(Err(ErrorKind::WouldBlock)));
    assert_eq!(a.wait(&mut enclave, 1, WAIT_NO), Wait::Ready(Ok(1)));
    assert_eq!(a.wait(&mut enclave, 1, WAIT_NO), Wait::Ready(Ok(1)));
    assert_eq!(a.wait(&mut enclave, EV_ALL, WAIT_NO), Wait::Ready(Err(ErrorKind::WouldBlock)));
}

#[test]
fn blocked_wait_resumes() {
    let (mut enclave, mut a, _) = two_threads();
    assert_eq!(enclave.send(1, Some(A)), Ok(()));
    assert_eq!(a.wait(&mut enclave, EV_UNPARK, WAIT_INDEFINITE), Wait::Blocked);
    assert_eq!(enclave.send(2, Some(A)), Ok(()));
    assert_eq!(a.wait(&mut enclave, EV_UNPARK, WAIT_INDEFINITE), Wait::Blocked);
    assert_eq!(enclave.send(5, Some(A)), Ok(()));
    assert_eq!(a.wait(&mut enclave, EV_UNPARK, WAIT_INDEFINITE), Wait::Ready(Ok(5)));
    assert_eq!(a.wait(&mut enclave, EV_ALL, WAIT_INDEFINITE), Wait::Ready(Ok(1)));
    assert_eq!(a.wait(&mut enclave, EV_ALL, WAIT_INDEFINITE), Wait::Ready(Ok(2)));
    assert_eq!(a.wait(&mut enclave, EV_ALL, WAIT_INDEFINITE), Wait::Blocked);
}

#[test]
fn wait_refuses_what_makes_no_sense() {
    let (mut enclave, mut a, _) = two_threads();
    assert_eq!(enclave.send(4, Some(A)), Ok(()));
    assert_eq!(a.wait(&mut enclave, 4, 1), Wait::Ready(Err(ErrorKind::InvalidInput)));
    assert_eq!(a.wait(&mut enclave, 8, WAIT_NO), Wait::Ready(Err(ErrorKind::InvalidInput)));
    assert_eq!(a.wait(&mut enclave, 8, 1), Wait::Ready(Err(ErrorKind::InvalidInput)));
    assert_eq!(a.wait(&mut enclave, 4, WAIT_NO), Wait::Ready(Ok(4)));
}

#[test]
fn abort_ends_waits() {
    let (mut enclave, mut a, mut b) = two_threads();
    assert!(!enclave.is_exiting());
    assert_eq!(enclave.send(4, Some(A)), Ok(()));
    enclave.abort_all_threads();
    assert!(enclave.is_exiting());
    assert_eq!(a.wait(&mut enclave, EV_ALL, WAIT_INDEFINITE), Wait::Ready(Ok(4)));
    assert_eq!(a.wait(&mut enclave, EV_ALL, WAIT_INDEFINITE), Wait::Ready(Err(ErrorKind::Other)));
    assert_eq!(b.wait(&mut enclave, 0, WAIT_INDEFINITE), Wait::Ready(Err(ErrorKind::Other)));
    assert_eq!(b.wait(&mut enclave, 0, WAIT_INDEFINITE), Wait::Blocked);
}

#[test]
fn abort_keeps_what_came_before_it() {
    let (mut enclave, mut a, _) = two_threads();
    assert_eq!(enclave.send(1, Some(A)), Ok(()));
    enclave.abort_all_threads();
    assert_eq!(enclave.send(4, Some(A)), Ok(()));
    assert_eq!(a.wait(&mut enclave, 4, WAIT_NO), Wait::Ready(Err(ErrorKind::Other)));
    assert_eq!(a.wait(&mut enclave, 4, WAIT_NO), Wait::Ready(Ok(4)));
    assert_eq!(a.wait(&mut enclave, 1, WAIT_NO), Wait::Ready(Ok(1)));
}

#[test]
fn wait_for_nothing_never_gets_an_event() {
    let (mut enclave, mut a, _) = two_threads();
    assert_eq!(enclave.send(7, Some(A)), Ok(()));
    assert_eq!(a.wait(&mut enclave, 0, WAIT_INDEFINITE), Wait::Blocked);
    assert_eq!(a.wait(&mut enclave, 0, WAIT_NO), Wait::Ready(Err(ErrorKind::WouldBlock)));
    assert_eq!(a.wait(&mut enclave, 7, WAIT_NO), Wait::Ready(Ok(7)));
}

#[test]
fn retired_tcs_receives_nothing() {
    let mut enclave = library(&[A, B]);
    let a = enclave.library_entry_take().unwrap();
    assert!(enclave.is_connected(A));
    assert!(!enclave.is_connected(C));
    enclave.retire(a);
    assert!(!enclave.is_connected(A));
    assert!(enclave.is_connected(B));
    assert_eq!(enclave.send(4, None), Ok(()));
    let b = enclave.library_entry_take().unwrap();
    let (_, mut b) = RunningTcs::entry_begin(b);
    assert_eq!(b.wait(&mut enclave, 4, WAIT_NO), Wait::Ready(Ok(4)));
}

#[test]
fn queue_outlives_a_call_and_pending_events_do_not() {
    let mut enclave = library(&[A]);
    let tcs = enclave.library_entry_take().unwrap();
    let mode = EnclaveEntry::Library { p1: 0, p2: 0, p3: 0, p4: 0, p5: 0 };
    let (handle, mut a) = RunningTcs::entry_begin(tcs);
    assert_eq!(enclave.send(1, Some(A)), Ok(()));
    assert_eq!(a.wait(&mut enclave, 4, WAIT_NO), Wait::Ready(Err(ErrorKind::WouldBlock)));
    assert_eq!(enclave.send(2, Some(A)), Ok(()));
    let entered = a.entry_end(&mut enclave, mode, handle, Ok((0, 0)));
    assert_eq!(enclave.library_entry_end(entered), Ok((0, 0)));
    let tcs = enclave.library_entry_take().unwrap();
    let (_, mut a) = RunningTcs::entry_begin(tcs);
    assert_eq!(a.wait(&mut enclave, 7, WAIT_NO), Wait::Ready(Ok(2)));
    assert_eq!(a.wait(&mut enclave, 7, WAIT_NO), Wait::Ready(Err(ErrorKind::WouldBlock)));
}

#[test]
fn queue_waits_for_its_thread() {
    let (mut enclave, mut a, mut b) = two_threads();
    assert_eq!(enclave.send(1, Some(A)), Ok(()));
    assert_eq!(enclave.send(2, None), Ok(()));
    assert_eq!(b.wait(&mut enclave, 3, WAIT_NO), Wait::Ready(Ok(2)));
    assert_eq!(b.wait(&mut enclave, 3, WAIT_NO), Wait::Ready(Err(ErrorKind::WouldBlock)));
    assert_eq!(enclave.send(4, Some(A)), Ok(()));
    assert_eq!(a.wait(&mut enclave, 7, WAIT_NO), Wait::Ready(Ok(1)));
    assert_eq!(a.wait(&mut enclave, 7, WAIT_NO), Wait::Ready(Ok(2)));
    assert_eq!(a.wait(&mut enclave, 7, WAIT_NO), Wait::Ready(Ok(4)));
}

#[test]
fn gone_targets() {
    let (mut enclave, a, b) = two_threads();
    let stopped = a.entry_end(&mut enclave, EnclaveEntry::ExecutableNonMain, "tcs", Ok((0, 0)));
    enclave.retire(stopped.unwrap().0);
    assert!(enclave.is_target_gone(1, Some(A)));
    assert!(!enclave.is_target_gone(1, Some(B)));
    assert!(!enclave.is_target_gone(1, Some(C)));
    assert!(!enclave.is_target_gone(1, None));
    assert!(!enclave.is_target_gone(0, Some(A)));
    assert!(!enclave.is_target_gone(8, Some(A)));
    assert_eq!(b.get_address(), B);
}
