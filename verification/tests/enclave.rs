use enclave_usercalls::abi::{FD_STDERR, FD_STDIN, FD_STDOUT, WAIT_INDEFINITE};
use enclave_usercalls::abort::{EnclaveAbort, EnclaveError, EnclavePanic, DEBUG_BUFFER_LEN};
use enclave_usercalls::error::ErrorKind;
use enclave_usercalls::event::Wait;
use enclave_usercalls::fd::FileDesc;
use enclave_usercalls::outcome::{thread_entry_end, Entered};
use enclave_usercalls::running::{EnclaveEntry, RunningTcs};
use enclave_usercalls::state::EnclaveState;
use enclave_usercalls::sync::{GlobalSyncSender, SyncReceiver};
use enclave_usercalls::tcs::{first_duplicate, ErasedTcs, StoppedTcs, TcsAddress};

type Enclave = EnclaveState<u32, &'static str, &'static str>;

const MAIN: TcsAddress = TcsAddress(0x1000);
const T1: TcsAddress = TcsAddress(0x2000);
const T2: TcsAddress = TcsAddress(0x3000);

fn tcs(tcs: u32, address: TcsAddress) -> ErasedTcs<u32> {
    ErasedTcs { tcs, address }
}

fn program(sync: &mut GlobalSyncSender) -> (Enclave, StoppedTcs<u32>, SyncReceiver) {
    EnclaveState::main_entry_begin(
        tcs(0, MAIN),
        vec![tcs(1, T1), tcs(2, T2)],
        "in",
        "out",
        "err",
        sync,
    )
}

fn library() -> Enclave {
    EnclaveState::library(vec![tcs(1, T1), tcs(2, T2)], "in", "out", "err")
}

fn panic_reason() -> EnclaveAbort<EnclavePanic> {
    EnclaveAbort::Exit { panic: EnclavePanic::blank() }
}

#[test]
fn duplicates_are_found() {
    assert_eq!(tcs(1, T1).address(), T1);
    assert_eq!(first_duplicate(&vec![]), None);
    assert_eq!(first_duplicate(&vec![MAIN, T1, T2]), None);
    assert_eq!(first_duplicate(&vec![MAIN, T1, T2, T2, MAIN]), Some(T2));
    assert_eq!(first_duplicate(&vec![MAIN, T1, MAIN, T1]), Some(MAIN));
}

#[test]
fn enclave_starts_with_the_standard_streams() {
    let enclave = library();
    assert_eq!(enclave.lookup_stream(FD_STDIN), Ok(&"in"));
    assert_eq!(enclave.lookup_stream(FD_STDOUT), Ok(&"out"));
    assert_eq!(enclave.lookup_stream(FD_STDERR), Ok(&"err"));
    assert_eq!(enclave.lookup_stream(3), Err(ErrorKind::BrokenPipe));
    assert_eq!(enclave.lookup_listener(FD_STDIN), Err(ErrorKind::InvalidInput));
    assert_eq!(enclave.lookup_listener(3), Err(ErrorKind::BrokenPipe));
    assert!(matches!(enclave.lookup_fd(FD_STDOUT), Ok(FileDesc::Stream("out"))));
    assert!(matches!(enclave.lookup_fd(9), Err(ErrorKind::BrokenPipe)));
    assert!(!enclave.is_exiting());
}

#[test]
fn descriptors_open_and_close() {
    let mut enclave = library();
    assert!(enclave.fd_available());
    assert_eq!(enclave.alloc_fd(FileDesc::listener("l")), 3);
    assert_eq!(enclave.alloc_fd(FileDesc::stream("s")), 4);
    assert_eq!(enclave.lookup_listener(3), Ok(&"l"));
    assert_eq!(enclave.lookup_stream(3), Err(ErrorKind::InvalidInput));
    assert_eq!(enclave.lookup_stream(4), Ok(&"s"));
    enclave.close(3);
    assert_eq!(enclave.lookup_listener(3), Err(ErrorKind::BrokenPipe));
    assert_eq!(enclave.lookup_stream(4), Ok(&"s"));
    enclave.close(3);
    enclave.close(1000);
}

#[test]
fn descriptors_are_not_reused() {
    let mut enclave = library();
    assert_eq!(enclave.alloc_fd(FileDesc::stream("a")), 3);
    enclave.close(3);
    assert_eq!(enclave.alloc_fd(FileDesc::stream("b")), 4);
    enclave.close(FD_STDIN);
    assert_eq!(enclave.alloc_fd(FileDesc::stream("c")), 5);
    assert_eq!(enclave.lookup_stream(FD_STDIN), Err(ErrorKind::BrokenPipe));
}

#[test]
fn descriptor_kinds() {
    let stream: FileDesc<u8, u16> = FileDesc::stream(1);
    let listener: FileDesc<u8, u16> = FileDesc::listener(2);
    assert_eq!(stream.as_stream(), Ok(&1));
    assert_eq!(stream.as_listener(), Err(ErrorKind::InvalidInput));
    assert_eq!(listener.as_listener(), Ok(&2));
    assert_eq!(listener.as_stream(), Err(ErrorKind::InvalidInput));
}

#[test]
fn threads_are_launched_once_and_last_first() {
    let mut sync = GlobalSyncSender::new();
    let (mut enclave, main, _) = program(&mut sync);
    assert_eq!((main.tcs, main.address), (0, MAIN));
    let first = enclave.launch_thread().unwrap();
    assert_eq!((first.tcs, first.address), (2, T2));
    let second = enclave.launch_thread().unwrap();
    assert_eq!((second.tcs, second.address), (1, T1));
    assert!(matches!(enclave.launch_thread(), Err(ErrorKind::WouldBlock)));
    enclave.retire(first);
    assert!(matches!(enclave.launch_thread(), Err(ErrorKind::WouldBlock)));
}

#[test]
fn libraries_launch_nothing() {
    let mut enclave = library();
    assert!(enclave.kind().as_library().is_some());
    assert!(enclave.kind().as_command().is_none());
    assert!(matches!(enclave.launch_thread(), Err(ErrorKind::InvalidInput)));
}

#[test]
fn no_launch_after_main() {
    let mut sync = GlobalSyncSender::new();
    let (mut enclave, main, receiver) = program(&mut sync);
    assert!(enclave.kind().as_command().is_some());
    assert!(enclave.kind().as_library().is_none());
    let launched = enclave.launch_thread().unwrap();
    let (_, mut thread) = RunningTcs::entry_begin(launched);
    enclave.main_entry_stop(&mut sync, &receiver);
    assert!(enclave.is_exiting());
    assert!(matches!(enclave.launch_thread(), Err(ErrorKind::WouldBlock)));
    assert!(!enclave.is_connected(T1));
    assert!(enclave.is_connected(T2));
    assert_eq!(
        thread.wait(&mut enclave, 0, WAIT_INDEFINITE),
        Wait::Ready(Err(ErrorKind::Other))
    );
    assert_eq!(enclave.main_entry_end(Ok((main, (0, 0)))), Ok(()));
    assert!(!enclave.is_connected(MAIN));
}

#[test]
fn main_waits_for_launched_threads() {
    let mut sync = GlobalSyncSender::new();
    let (mut enclave, main, receiver) = program(&mut sync);
    let first = enclave.launch_thread().unwrap();
    let first_sender = sync.clone_sender();
    let _second = enclave.launch_thread().unwrap();
    let second_sender = sync.clone_sender();
    assert!(!sync.can_send(&first_sender));
    enclave.main_entry_stop(&mut sync, &receiver);
    assert!(sync.can_send(&first_sender));
    assert!(!sync.has_sender());
    assert!(!sync.is_over(&receiver));
    enclave.launched_thread_end(Ok(first), &mut sync, first_sender);
    assert!(!enclave.is_connected(T2));
    assert!(!sync.is_over(&receiver));
    enclave.launched_thread_end(Err(EnclaveAbort::Secondary), &mut sync, second_sender);
    assert!(sync.is_over(&receiver));
    assert!(enclave.primary_panic_reason().is_none());
    assert_eq!(enclave.main_entry_end(Ok((main, (0, 0)))), Ok(()));
}

#[test]
fn a_second_program_does_not_end_the_wait_of_the_first() {
    let mut sync = GlobalSyncSender::new();
    assert!(!sync.has_sender());
    let first = sync.open();
    let sender = sync.clone_sender();
    let second = sync.open();
    assert!(sync.has_sender());
    assert!(!sync.is_over(&first));
    assert!(!sync.is_over(&second));
    sync.begin_receiving(&first);
    assert!(sync.can_send(&sender));
    sync.drop_sender(sender);
    assert!(sync.is_over(&first));
    sync.clear();
    assert!(sync.is_over(&second));
    sync.clear();
    assert!(sync.is_over(&second));
}

#[test]
fn entry_parameters() {
    let call = EnclaveEntry::Library { p1: 1, p2: 2, p3: 3, p4: 4, p5: 5 };
    assert_eq!(call.params(), (1, 2, 3, 4, 5));
    assert_eq!(EnclaveEntry::ExecutableMain.params(), (0, 0, 0, 0, 0));
    assert_eq!(EnclaveEntry::ExecutableNonMain.params(), (0, 0, 0, 0, 0));
}

fn leave(
    mode: EnclaveEntry,
    left: Result<(u64, u64), EnclaveAbort<bool>>,
) -> (Enclave, Option<usize>, Entered<u32>) {
    let mut enclave = library();
    let stopped = enclave.library_entry_take().unwrap();
    let (handle, running) = RunningTcs::entry_begin(stopped);
    assert_eq!(handle, 1);
    assert_eq!(running.get_address(), T1);
    let trap = running.debugger_trap(&left);
    let entered = running.entry_end(&mut enclave, mode, handle, left);
    (enclave, trap, entered)
}

#[test]
fn main_must_exit() {
    let main = EnclaveEntry::ExecutableMain;
    let (enclave, trap, entered) = leave(main, Ok((0, 0)));
    assert!(matches!(entered, Err(EnclaveAbort::MainReturned)));
    assert_eq!(trap, None);
    assert!(!enclave.is_connected(T1));
    let (enclave, trap, entered) = leave(main, Err(EnclaveAbort::Exit { panic: false }));
    assert!(matches!(entered, Ok((StoppedTcs { tcs: 1, address: T1 }, (0, 0)))));
    assert_eq!(trap, None);
    assert!(enclave.is_connected(T1));
}

#[test]
fn panics_trap_and_carry_a_blank_buffer() {
    let left = Err(EnclaveAbort::Exit { panic: true });
    let (enclave, trap, entered) = leave(EnclaveEntry::ExecutableNonMain, left);
    assert_eq!(trap, Some(0x2000));
    assert!(!enclave.is_connected(T1));
    match entered {
        Err(EnclaveAbort::Exit { panic }) => {
            assert_eq!(panic.debug_buffer, vec![0; DEBUG_BUFFER_LEN]);
            assert_eq!(panic.debug_buffer.len(), 1024);
        }
        _ => panic!("the panic is lost"),
    }
}

#[test]
fn other_aborts_are_passed_on() {
    let mode = EnclaveEntry::ExecutableNonMain;
    assert!(matches!(
        leave(mode, Err(EnclaveAbort::IndefiniteWait)).2,
        Err(EnclaveAbort::IndefiniteWait)
    ));
    assert!(matches!(
        leave(mode, Err(EnclaveAbort::InvalidUsercall(77))).2,
        Err(EnclaveAbort::InvalidUsercall(77))
    ));
    assert!(matches!(
        leave(mode, Err(EnclaveAbort::MainReturned)).2,
        Err(EnclaveAbort::MainReturned)
    ));
    assert!(matches!(leave(mode, Err(EnclaveAbort::Secondary)).2, Err(EnclaveAbort::Secondary)));
    assert!(matches!(leave(mode, Ok((3, 4))).2, Ok((_, (3, 4)))));
}

#[test]
fn thread_entry_keeps_the_tcs() {
    let entered = leave(EnclaveEntry::ExecutableNonMain, Ok((0, 0))).2;
    assert!(matches!(thread_entry_end(entered), Ok(StoppedTcs { tcs: 1, address: T1 })));
    let entered: Entered<u32> = Err(EnclaveAbort::Secondary);
    assert!(matches!(thread_entry_end(entered), Err(EnclaveAbort::Secondary)));
}

#[test]
fn library_calls_rotate_the_pool() {
    let mut enclave = library();
    let first = enclave.library_entry_take().unwrap();
    assert_eq!(first.address, T1);
    let second = enclave.library_entry_take().unwrap();
    assert_eq!(second.address, T2);
    assert!(enclave.library_entry_take().is_none());
    assert_eq!(enclave.library_entry_end(Ok((second, (5, 6)))), Ok((5, 6)));
    assert_eq!(enclave.library_entry_end(Ok((first, (7, 8)))), Ok((7, 8)));
    assert_eq!(enclave.library_entry_take().unwrap().address, T2);
    assert_eq!(enclave.library_entry_take().unwrap().address, T1);
}

#[test]
fn library_errors() {
    let mut enclave = library();
    let blank = EnclaveError::Panic(EnclavePanic::blank());
    assert_eq!(enclave.library_entry_end(Err(panic_reason())), Err(blank));
    assert_eq!(
        enclave.library_entry_end(Err(EnclaveAbort::IndefiniteWait)),
        Err(EnclaveError::ThreadWaiting)
    );
    assert_eq!(
        enclave.library_entry_end(Err(EnclaveAbort::InvalidUsercall(9))),
        Err(EnclaveError::InvalidUsercall(9))
    );
    assert_eq!(
        enclave.library_entry_end(Err(EnclaveAbort::Secondary)),
        Err(EnclaveError::OtherThreadAborted)
    );
}

#[test]
fn main_errors() {
    let mut sync = GlobalSyncSender::new();
    let (mut enclave, _, receiver) = program(&mut sync);
    enclave.main_entry_stop(&mut sync, &receiver);
    let blank = EnclaveError::Panic(EnclavePanic::blank());
    assert_eq!(enclave.main_entry_end(Err(panic_reason())), Err(blank));
    assert_eq!(
        enclave.main_entry_end(Err(EnclaveAbort::IndefiniteWait)),
        Err(EnclaveError::AllThreadsWaiting)
    );
    assert_eq!(
        enclave.main_entry_end(Err(EnclaveAbort::InvalidUsercall(9))),
        Err(EnclaveError::InvalidUsercall(9))
    );
    assert_eq!(
        enclave.main_entry_end(Err(EnclaveAbort::MainReturned)),
        Err(EnclaveError::MainReturned)
    );
    assert_eq!(
        enclave.main_entry_end(Err(EnclaveAbort::Secondary)),
        Err(EnclaveError::OtherThreadAborted)
    );
}

/// A program with two launched threads that end with `first` and `second`, and a main thread that
/// ends with `main`.
fn end_program(
    first: Result<(), EnclaveAbort<EnclavePanic>>,
    second: Result<(), EnclaveAbort<EnclavePanic>>,
    main: EnclaveAbort<EnclavePanic>,
) -> Result<(), EnclaveError> {
    let mut sync = GlobalSyncSender::new();
    let (mut enclave, _, receiver) = program(&mut sync);
    let launched = [enclave.launch_thread().unwrap(), enclave.launch_thread().unwrap()];
    let senders = [sync.clone_sender(), sync.clone_sender()];
    enclave.main_entry_stop(&mut sync, &receiver);
    for ((tcs, sender), ended) in launched.into_iter().zip(senders).zip([first, second]) {
        enclave.launched_thread_end(ended.map(|()| tcs), &mut sync, sender);
    }
    assert!(sync.is_over(&receiver));
    enclave.main_entry_end(Err(main))
}

fn panic_with(byte: u8) -> EnclavePanic {
    EnclavePanic { debug_buffer: vec![byte] }
}

#[test]
fn reason_of_a_launched_thread_is_reported() {
    let panic = |byte| Err(EnclaveAbort::Exit { panic: panic_with(byte) });
    let told = |byte| Err(EnclaveError::Panic(panic_with(byte)));
    let usercall = || Err(EnclaveAbort::InvalidUsercall(9));
    let secondary = || Err(EnclaveAbort::Secondary);
    let waiting = || Err(EnclaveAbort::IndefiniteWait);
    assert_eq!(end_program(panic(1), secondary(), EnclaveAbort::Secondary), told(1));
    assert_eq!(end_program(secondary(), panic(2), EnclaveAbort::Secondary), told(2));
    assert_eq!(end_program(panic(1), panic(2), EnclaveAbort::Secondary), told(1));
    assert_eq!(end_program(waiting(), panic(2), EnclaveAbort::IndefiniteWait), told(2));
    assert_eq!(end_program(panic(1), usercall(), EnclaveAbort::Secondary), told(1));
    assert_eq!(
        end_program(usercall(), panic(2), EnclaveAbort::Secondary),
        Err(EnclaveError::InvalidUsercall(9))
    );
    assert_eq!(
        end_program(Ok(()), waiting(), EnclaveAbort::IndefiniteWait),
        Err(EnclaveError::AllThreadsWaiting)
    );
}

#[test]
fn own_reason_of_main_goes_first() {
    let panic = || Err(EnclaveAbort::Exit { panic: panic_with(1) });
    assert_eq!(
        end_program(panic(), Ok(()), EnclaveAbort::MainReturned),
        Err(EnclaveError::MainReturned)
    );
    assert_eq!(
        end_program(panic(), Ok(()), EnclaveAbort::InvalidUsercall(5)),
        Err(EnclaveError::InvalidUsercall(5))
    );
    assert_eq!(
        end_program(panic(), Ok(()), EnclaveAbort::Exit { panic: panic_with(3) }),
        Err(EnclaveError::Panic(panic_with(3)))
    );
}

#[test]
fn primary_reason_is_the_first_and_stays() {
    let mut sync = GlobalSyncSender::new();
    let (mut enclave, _, _) = program(&mut sync);
    let mut end = |enclave: &mut Enclave, abort| {
        let sender = sync.clone_sender();
        enclave.launched_thread_end(Err(abort), &mut sync, sender);
    };
    end(&mut enclave, EnclaveAbort::Secondary);
    end(&mut enclave, EnclaveAbort::IndefiniteWait);
    assert_eq!(enclave.primary_panic_reason(), None);
    end(&mut enclave, EnclaveAbort::InvalidUsercall(1));
    end(&mut enclave, EnclaveAbort::InvalidUsercall(2));
    end(&mut enclave, panic_reason());
    assert_eq!(enclave.primary_panic_reason(), Some(&EnclaveAbort::InvalidUsercall(1)));
}

#[test]
fn clean_exit_of_a_launched_thread_ends_the_program_well() {
    let mut sync = GlobalSyncSender::new();
    let (mut enclave, main, receiver) = program(&mut sync);
    let launched = enclave.launch_thread().unwrap();
    let sender = sync.clone_sender();
    let (handle, thread) = RunningTcs::entry_begin(launched);
    let (main_handle, main) = RunningTcs::entry_begin(main);
    assert!(!enclave.clean_exit());
    let left = Err(enclave.exit(false));
    assert!(enclave.clean_exit());
    let mode = EnclaveEntry::ExecutableNonMain;
    let entered = thread.entry_end(&mut enclave, mode, handle, left);
    let left = Err(EnclaveAbort::Secondary);
    let main = main.entry_end(&mut enclave, EnclaveEntry::ExecutableMain, main_handle, left);
    enclave.main_entry_stop(&mut sync, &receiver);
    enclave.launched_thread_end(thread_entry_end(entered), &mut sync, sender);
    assert_eq!(enclave.main_entry_end(main), Ok(()));
}

#[test]
fn panic_of_a_launched_thread_is_reported_after_a_clean_exit_too() {
    let mut sync = GlobalSyncSender::new();
    let (mut enclave, _, receiver) = program(&mut sync);
    let launched = enclave.launch_thread().unwrap();
    let sender = sync.clone_sender();
    let (handle, thread) = RunningTcs::entry_begin(launched);
    let left = Err(enclave.exit(true));
    assert!(!enclave.clean_exit());
    let entered = thread.entry_end(&mut enclave, EnclaveEntry::ExecutableNonMain, handle, left);
    enclave.exit(false);
    enclave.main_entry_stop(&mut sync, &receiver);
    enclave.launched_thread_end(thread_entry_end(entered), &mut sync, sender);
    assert_eq!(
        enclave.main_entry_end(Err(EnclaveAbort::Secondary)),
        Err(EnclaveError::Panic(EnclavePanic::blank()))
    );
}

#[test]
fn no_launch_while_going_down() {
    let mut sync = GlobalSyncSender::new();
    let (mut enclave, _, _) = program(&mut sync);
    assert!(enclave.launch_thread().is_ok());
    assert!(!enclave.is_exiting());
    enclave.exit(false);
    assert!(matches!(enclave.launch_thread(), Err(ErrorKind::WouldBlock)));
    assert!(enclave.is_connected(T1));
}

#[test]
fn messages() {
    let text = |e: EnclaveError| e.message().unwrap();
    assert_eq!(
        text(EnclaveError::AllThreadsWaiting),
        "All enclave threads are waiting indefinitely without possibility of wakeup"
    );
    assert_eq!(
        text(EnclaveError::ThreadWaiting),
        "This thread is waiting indefinitely without possibility of wakeup"
    );
    assert_eq!(
        text(EnclaveError::MainReturned),
        "The enclave returned from the main entrypoint in violation of the specification."
    );
    assert_eq!(
        text(EnclaveError::OtherThreadAborted),
        "This thread exited because another thread aborted"
    );
    assert_eq!(EnclaveError::Panic(EnclavePanic::blank()).message(), None);
}

#[test]
fn invalid_usercalls_are_told_in_hex() {
    for n in [0, 1, 9, 10, 15, 16, 0xabcdef, 0x8000_0000, u64::MAX] {
        assert_eq!(
            EnclaveError::InvalidUsercall(n).message().unwrap(),
            format!("The enclave performed an invalid usercall 0x{:x}", n)
        );
    }
}

#[test]
fn exit_aborts_everybody() {
    let mut enclave = library();
    assert_eq!(enclave.exit(true), EnclaveAbort::Exit { panic: true });
    assert!(enclave.is_exiting());
    assert_eq!(enclave.exit(false), EnclaveAbort::Exit { panic: false });
    let stopped = enclave.library_entry_take().unwrap();
    let (_, mut running) = RunningTcs::entry_begin(stopped);
    assert_eq!(
        running.wait(&mut enclave, 7, WAIT_INDEFINITE),
        Wait::Ready(Err(ErrorKind::Other))
    );
}

#[test]
fn going_down_is_final() {
    let mut sync = GlobalSyncSender::new();
    let (mut enclave, main, _) = program(&mut sync);
    let (_, mut thread) = RunningTcs::entry_begin(main);
    let launched = enclave.launch_thread().unwrap();
    enclave.exit(false);
    let _ = thread.wait(&mut enclave, 1, WAIT_INDEFINITE);
    let _ = enclave.alloc_fd(FileDesc::stream("s"));
    enclave.close(3);
    enclave.retire(launched);
    assert_eq!(enclave.send(1, None), Ok(()));
    assert!(enclave.is_exiting());
    assert!(!enclave.is_connected(T2));
    assert_eq!(enclave.lookup_stream(3), Err(ErrorKind::BrokenPipe));
    assert_eq!(enclave.alloc_fd(FileDesc::stream("t")), 4);
}

#[test]
fn abort_is_not_missed() {
    let mut sync = GlobalSyncSender::new();
    let (mut enclave, main, _) = program(&mut sync);
    let (_, mut running) = RunningTcs::entry_begin(main);
    let other = enclave.launch_thread().unwrap();
    let (_, mut thread) = RunningTcs::entry_begin(other);
    let launched = enclave.launch_thread().unwrap();
    assert_eq!(enclave.send(2, Some(MAIN)), Ok(()));
    enclave.exit(true);
    assert_eq!(enclave.send(2, Some(MAIN)), Ok(()));
    assert_eq!(thread.wait(&mut enclave, 2, WAIT_INDEFINITE), Wait::Ready(Err(ErrorKind::Other)));
    enclave.retire(launched);
    assert_eq!(running.wait(&mut enclave, 1, WAIT_INDEFINITE), Wait::Ready(Err(ErrorKind::Other)));
    assert_eq!(running.wait(&mut enclave, 2, WAIT_INDEFINITE), Wait::Ready(Ok(2)));
    assert_eq!(running.wait(&mut enclave, 2, WAIT_INDEFINITE), Wait::Ready(Ok(2)));
    assert_eq!(running.wait(&mut enclave, 2, WAIT_INDEFINITE), Wait::Blocked);
}

#[test]
fn owned_tcs_stays_owned() {
    let mut enclave = library();
    let own = enclave.library_entry_take().unwrap();
    let other = enclave.library_entry_take().unwrap();
    assert!(enclave.library_entry_take().is_none());
    assert_eq!(enclave.library_entry_end(Ok((other, (0, 0)))), Ok((0, 0)));
    let other = enclave.library_entry_take().unwrap();
    assert_eq!(other.address, T2);
    enclave.retire(other);
    enclave.exit(false);
    assert!(enclave.library_entry_take().is_none());
    assert!(enclave.is_connected(T1));
    assert!(!enclave.is_connected(T2));
    assert_eq!(enclave.library_entry_end(Ok((own, (1, 2)))), Ok((1, 2)));
    assert_eq!(enclave.library_entry_take().unwrap().address, T1);
}

#[test]
fn enclave_does_not_go_down_by_itself() {
    let mut sync = GlobalSyncSender::new();
    let (mut enclave, main, _) = program(&mut sync);
    let (_, mut thread) = RunningTcs::entry_begin(main);
    let launched = enclave.launch_thread().unwrap();
    let sender = sync.clone_sender();
    assert_eq!(enclave.send(1, None), Ok(()));
    assert_eq!(thread.wait(&mut enclave, 1, WAIT_INDEFINITE), Wait::Ready(Ok(1)));
    assert_eq!(enclave.alloc_fd(FileDesc::stream("s")), 3);
    enclave.close(3);
    enclave.retire(launched);
    enclave.launched_thread_end(Err(EnclaveAbort::IndefiniteWait), &mut sync, sender);
    assert!(!enclave.is_exiting());
    enclave.abort_all_threads();
    assert!(enclave.is_exiting());
}
