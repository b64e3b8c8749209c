//! The state that all threads of an enclave share.
use crate::abi::{fd_stderr, fd_stdin, fd_stdout, Fd, FD_STDERR};
use crate::abort::{EnclaveAbort, EnclavePanic};
use crate::effects::{law_refused_sends, law_send_appends};
use crate::error::ErrorKind;
use crate::event::{
    check_event_set, deliver, event_union, take_event, Wait, ABORT_EVENT,
};
use crate::fd::FileDesc;
use crate::fnv_map::{fnv_get, fnv_get_mut, fnv_insert, fnv_keys, fnv_remove};
use crate::history::{law_step_keeps_order, Step};
use crate::laws::{law_launch_once, law_library_call_keeps_the_pool};
use crate::sync::{GlobalSyncSender, SyncReceiver, SyncSender};
use crate::tcs::{addresses, stopped, ErasedTcs, StoppedTcs, TcsAddress};
use crate::view::{fresh_queues, standard_fds, EnclaveView, KindView, QueueView};
use fnv::FnvHashMap;
use std::collections::VecDeque;
use vstd::prelude::*;

verus! {

/// The event queue of a TCS.
pub(crate) struct EventQueue {
    pub(crate) events: VecDeque<u8>,
    pub(crate) connected: bool,
}

impl View for EventQueue {
    type V = QueueView;

    closed spec fn view(&self) -> QueueView {
        QueueView { events: self.events@, connected: self.connected }
    }
}

/// The state of an enclave that runs as a program.
pub struct Command<T> {
    pub(crate) threads: Vec<StoppedTcs<T>>,
    pub(crate) primary_panic_reason: Option<EnclaveAbort<EnclavePanic>>,
    pub(crate) other_reasons: Vec<EnclaveAbort<EnclavePanic>>,
    pub(crate) running_secondary_threads: usize,
    pub(crate) clean_exit: bool,
}

/// The state of an enclave that runs as a library.
pub struct Library<T> {
    pub(crate) threads: VecDeque<StoppedTcs<T>>,
}

/// How an enclave is run.
pub enum EnclaveKind<T> {
    /// As a program, from its main entry point.
    Command(Command<T>),
    /// As a library, one call at a time on each TCS.
    Library(Library<T>),
}

impl<T> View for EnclaveKind<T> {
    type V = KindView<T>;

    closed spec fn view(&self) -> KindView<T> {
        match *self {
            EnclaveKind::Command(c) => KindView::Command {
                threads: c.threads@,
                primary_panic_reason: c.primary_panic_reason,
                other_reasons: c.other_reasons@,
                running_secondary_threads: c.running_secondary_threads as nat,
                clean_exit: c.clean_exit,
            },
            EnclaveKind::Library(l) => KindView::Library { threads: l.threads@ },
        }
    }
}

/// The state that all threads of an enclave share. `T` is the handle of a TCS, `S`
/// that of a stream and `L` that of a listening socket.
pub struct EnclaveState<T, S, L> {
    pub(crate) kind: EnclaveKind<T>,
    pub(crate) event_queues: FnvHashMap<usize, EventQueue>,
    pub(crate) fds: FnvHashMap<Fd, FileDesc<S, L>>,
    pub(crate) last_fd: usize,
    pub(crate) exiting: bool,
}

/// The event queues of `m` as contracts see them.
pub(crate) closed spec fn queue_views(m: Map<usize, EventQueue>) -> Map<usize, QueueView> {
    m.map_values(|q: EventQueue| q@)
}

impl<T, S, L> View for EnclaveState<T, S, L> {
    type V = EnclaveView<T, S, L>;

    closed spec fn view(&self) -> EnclaveView<T, S, L> {
        EnclaveView {
            kind: self.kind@,
            queues: queue_views(self.event_queues@),
            fds: self.fds@,
            last_fd: self.last_fd as nat,
            exiting: self.exiting,
        }
    }
}

impl<T, S, L> EnclaveState<T, S, L> {
    /// What holds of an enclave at all times.
    pub open spec fn wf(&self) -> bool {
        self@.wf()
    }
}

impl<T> EnclaveKind<T> {
    /// The program, if the enclave is run as one.
    pub fn as_command(&self) -> (command: Option<&Command<T>>)
        ensures
            command == (match *self {
                EnclaveKind::Command(c) => Some(&c),
                EnclaveKind::Library(_) => None::<&Command<T>>,
            }),
            command is Some <==> self@ is Command,
    {
        match self {
            EnclaveKind::Command(c) => Some(c),
            _ => None,
        }
    }

    /// The library, if the enclave is run as one.
    pub fn as_library(&self) -> (library: Option<&Library<T>>)
        ensures
            library == (match *self {
                EnclaveKind::Library(l) => Some(&l),
                EnclaveKind::Command(_) => None::<&Library<T>>,
            }),
            library is Some <==> self@ is Library,
    {
        match self {
            EnclaveKind::Library(l) => Some(l),
            _ => None,
        }
    }
}

/// Replacing a queue in the map replaces what contracts see of it.
proof fn lemma_queue_views_insert(m: Map<usize, EventQueue>, a: usize, q: EventQueue)
    ensures
        queue_views(m.insert(a, q)) == queue_views(m).insert(a, q@),
{
    assert(queue_views(m.insert(a, q)) =~= queue_views(m).insert(a, q@));
}

/// Sends `ev` to the TCS at `address`, if there is one and somebody owns it.
fn post(queues: &mut FnvHashMap<usize, EventQueue>, address: usize, ev: u8)
    ensures
        queue_views(final(queues)@) == (if old(queues)@.contains_key(address) {
            queue_views(old(queues)@).insert(address, queue_views(old(queues)@)[address].sent(ev))
        } else {
            queue_views(old(queues)@)
        }),
{
    match fnv_get_mut(queues, &address) {
        Some(queue) => {
            if queue.connected {
                queue.events.push_back(ev);
            }
        },
        None => {},
    }
    proof {
        if old(queues)@.contains_key(address) {
            lemma_queue_views_insert(old(queues)@, address, queues@[address]);
            assert(queues@[address]@ =~= queue_views(old(queues)@)[address].sent(ev));
        }
    }
}

/// Sends `ev` to every TCS that somebody owns.
fn post_to_all(queues: &mut FnvHashMap<usize, EventQueue>, ev: u8)
    ensures
        queue_views(final(queues)@) == queue_views(old(queues)@).map_values(
            |q: QueueView| q.sent(ev),
        ),
{
    let keys: Vec<usize> = fnv_keys(queues);
    let ghost before = queue_views(queues@);
    assert forall|k: int| 0 <= k < keys@.len() implies before.contains_key(#[trigger] keys@[k]) by {
        assert(keys@.contains(keys@[k]));
    }
    let mut i: usize = 0;
    while i < keys.len()
        invariant
            i <= keys@.len(),
            keys@.no_duplicates(),
            queue_views(queues@).dom() == before.dom(),
            forall|a: usize| #[trigger] before.contains_key(a) ==> keys@.contains(a),
            forall|k: int| 0 <= k < keys@.len() ==> before.contains_key(#[trigger] keys@[k]),
            forall|k: int|
                0 <= k < i ==> queue_views(queues@)[#[trigger] keys@[k]] == before[keys@[k]].sent(ev),
            forall|k: int|
                i <= k < keys@.len() ==> queue_views(queues@)[#[trigger] keys@[k]]
                    == before[keys@[k]],
        decreases keys@.len() - i,
    {
        post(queues, keys[i], ev);
        i = i + 1;
    }
    proof {
        let after = before.map_values(|q: QueueView| q.sent(ev));
        assert forall|a: usize| before.contains_key(a) implies #[trigger] queue_views(queues@)[a]
            == after[a] by {
            assert(keys@.contains(a));
            let k = choose|k: int| 0 <= k < keys@.len() && keys@[k] == a;
            assert(queue_views(queues@)[keys@[k]] == before[keys@[k]].sent(ev));
        }
        assert(queue_views(queues@) =~= after);
    }
}

/// Gives `tcs` an event queue of its own.
fn event_queue_add_tcs<T>(queues: &mut FnvHashMap<usize, EventQueue>, tcs: ErasedTcs<T>) -> (added:
    StoppedTcs<T>)
    requires
        !queue_views(old(queues)@).contains_key(tcs.address.0),
    ensures
        queue_views(final(queues)@) == queue_views(old(queues)@).insert(
            tcs.address.0,
            QueueView::fresh(),
        ),
        added == (StoppedTcs { tcs: tcs.tcs, address: tcs.address }),
{
    let queue = EventQueue { events: VecDeque::new(), connected: true };
    proof {
        lemma_queue_views_insert(queues@, tcs.address.0, queue);
        assert(queue@ =~= QueueView::fresh());
    }
    let _ = fnv_insert(queues, tcs.address.0, queue);
    StoppedTcs { tcs: tcs.tcs, address: tcs.address }
}

/// Gives each of `threads` an event queue of its own.
fn event_queue_add_all<T>(
    queues: &mut FnvHashMap<usize, EventQueue>,
    Ghost(known): Ghost<Seq<TcsAddress>>,
    threads: Vec<ErasedTcs<T>>,
) -> (added: Vec<StoppedTcs<T>>)
    requires
        queue_views(old(queues)@) == fresh_queues(known),
        (known + addresses(threads@)).no_duplicates(),
    ensures
        queue_views(final(queues)@) == fresh_queues(known + addresses(threads@)),
        added@ == stopped(threads@),
{
    let ghost all = known + addresses(threads@);
    let ghost given = threads@;
    let mut added: Vec<StoppedTcs<T>> = Vec::new();
    assert(known + addresses(given).take(0) =~= known);
    for tcs in it: threads.into_iter()
        invariant
            it.seq() == given,
            all == known + addresses(given),
            all.no_duplicates(),
            added@ == stopped(given).take(it.index() as int),
            queue_views(queues@) == fresh_queues(known + addresses(given).take(it.index() as int)),
    {
        proof {
            let i = it.index() as int;
            let before = known + addresses(given).take(i);
            let after = known + addresses(given).take(i + 1);
            assert(tcs == given[i]);
            assert(all[known.len() + i] == tcs.address);
            assert forall|k: int| 0 <= k < before.len() implies before[k] != tcs.address by {
                assert(before[k] == all[k]);
            }
            assert(!before.contains(tcs.address));
            assert(after =~= before.push(tcs.address));
            assert forall|x: usize| after.contains(TcsAddress(x)) <==> (before.contains(
                TcsAddress(x),
            ) || x == tcs.address.0) by {
                if before.contains(TcsAddress(x)) {
                    let k = choose|k: int| 0 <= k < before.len() && before[k] == TcsAddress(x);
                    assert(after[k] == TcsAddress(x));
                }
                assert(after[before.len() as int] == tcs.address);
            }
            assert(fresh_queues(after) =~= fresh_queues(before).insert(
                tcs.address.0,
                QueueView::fresh(),
            ));
        }
        added.push(event_queue_add_tcs(queues, tcs));
        assert(added@ =~= stopped(given).take(it.index() as int + 1));
    }
    assert(addresses(given).take(given.len() as int) =~= addresses(given));
    assert(stopped(given).take(given.len() as int) =~= stopped(given));
    added
}

/// The largest of the descriptors `fds`.
fn largest_fd<D>(fds: &FnvHashMap<Fd, D>) -> (largest: Option<Fd>)
    ensures
        largest is None <==> fds@ =~= Map::<Fd, D>::empty(),
        largest matches Some(fd) ==> {
            &&& fds@.contains_key(fd)
            &&& forall|other: Fd| #[trigger] fds@.contains_key(other) ==> other <= fd
        },
{
    let keys: Vec<Fd> = fnv_keys(fds);
    if keys.len() == 0 {
        assert(fds@ =~= Map::<Fd, D>::empty()) by {
            assert forall|fd: Fd| !fds@.contains_key(fd) by {
                assert(!keys@.contains(fd));
            }
        }
        return None;
    }
    let mut largest: Fd = keys[0];
    let mut i: usize = 1;
    assert(keys@.contains(keys@[0]));
    while i < keys.len()
        invariant
            1 <= i <= keys@.len(),
            keys@.contains(largest),
            forall|k: int| 0 <= k < i ==> keys@[k] <= largest,
        decreases keys@.len() - i,
    {
        if keys[i] > largest {
            largest = keys[i];
        }
        i = i + 1;
    }
    assert forall|other: Fd| #[trigger] fds@.contains_key(other) implies other <= largest by {
        assert(keys@.contains(other));
    }
    Some(largest)
}

/// An enclave that has not run yet is in order, if its free TCSs `given` are those
/// at the last of the addresses `a`.
proof fn lemma_fresh_wf<T, S, L>(
    v: EnclaveView<T, S, L>,
    a: Seq<TcsAddress>,
    from: int,
    given: Seq<ErasedTcs<T>>,
)
    requires
        0 <= from <= a.len(),
        a.no_duplicates(),
        a.skip(from) == addresses(given),
        v.pool() == stopped(given),
        v.queues == fresh_queues(a),
        v.fds_wf(),
        v.kind matches KindView::Command { threads, running_secondary_threads, .. }
            ==> running_secondary_threads == 0 && threads.len() <= usize::MAX,
        v.primary_panic_reason() is None,
    ensures
        v.wf(),
        forall|i: int| 0 <= i < from ==> #[trigger] v.checked_out(a[i]),
{
    assert(a.skip(from).len() == given.len());
    assert forall|i: int| 0 <= i < v.pool().len() implies (#[trigger] v.pool()[i]).address == a[from
        + i] by {
        assert(addresses(given)[i] == given[i].address);
        assert(a.skip(from)[i] == a[from + i]);
    }
    assert forall|i: int| 0 <= i < v.pool().len() implies v.queues.contains_key(
        (#[trigger] v.pool()[i]).address.0,
    ) by {
        assert(a.contains(a[from + i]));
    }
    assert forall|i: int| 0 <= i < from implies #[trigger] v.checked_out(a[i]) by {
        assert(a.contains(a[i]));
        assert(TcsAddress(a[i].0) == a[i]);
    }
}

impl<T, S, L> EnclaveState<T, S, L> {
    /// An enclave with the event queues `event_queues` and the standard streams.
    fn new(
        kind: EnclaveKind<T>,
        event_queues: FnvHashMap<usize, EventQueue>,
        stdin: S,
        stdout: S,
        stderr: S,
    ) -> (enclave: Self)
        ensures
            enclave@ == (EnclaveView {
                kind: kind@,
                queues: queue_views(event_queues@),
                fds: standard_fds::<S, L>(stdin, stdout, stderr),
                last_fd: FD_STDERR as nat,
                exiting: false,
            }),
    {
        let mut fds: FnvHashMap<Fd, FileDesc<S, L>> = FnvHashMap::default();
        let _ = fnv_insert(&mut fds, fd_stdin(), FileDesc::stream(stdin));
        let _ = fnv_insert(&mut fds, fd_stdout(), FileDesc::stream(stdout));
        let _ = fnv_insert(&mut fds, fd_stderr(), FileDesc::stream(stderr));
        assert(fds@ =~= standard_fds(stdin, stdout, stderr));
        proof {
            assert(fds@.contains_key(FD_STDERR));
        }
        let last_fd: usize = match largest_fd(&fds) {
            Some(fd) => fd as usize,
            None => 0,
        };
        EnclaveState { kind, event_queues, fds, last_fd, exiting: false }
    }

    /// An enclave that is run as a program: `main` is entered first, and `threads`
    /// are there to be launched. The main thread will wait for them at the receiver.
    pub fn main_entry_begin(
        main: ErasedTcs<T>,
        threads: Vec<ErasedTcs<T>>,
        stdin: S,
        stdout: S,
        stderr: S,
        sync: &mut GlobalSyncSender,
    ) -> (begun: (Self, StoppedTcs<T>, SyncReceiver))
        requires
            (seq![main.address] + addresses(threads@)).no_duplicates(),
            old(sync)@.wf(),
        ensures
            final(sync)@.wf(),
            final(sync)@ == old(sync)@.opened(),
            begun.2.channel() == old(sync)@.channels.len(),
            begun.0.wf(),
            begun.0@ == EnclaveView::<T, S, L>::fresh(
                KindView::Command {
                    threads: stopped(threads@),
                    primary_panic_reason: None,
                    other_reasons: Seq::empty(),
                    running_secondary_threads: 0,
                    clean_exit: false,
                },
                seq![main.address] + addresses(threads@),
                stdin,
                stdout,
                stderr,
            ),
            begun.1 == (StoppedTcs { tcs: main.tcs, address: main.address }),
            begun.0@.checked_out(main.address),
    {
        let ghost known = seq![main.address];
        let ghost a = known + addresses(threads@);
        let ghost given = threads@;
        let mut event_queues: FnvHashMap<usize, EventQueue> = FnvHashMap::default();
        proof {
            assert(known[0] == main.address);
            assert(queue_views(event_queues@).insert(main.address.0, QueueView::fresh())
                =~= fresh_queues(known));
        }
        let main = event_queue_add_tcs(&mut event_queues, main);
        let receiver = sync.open();
        let threads = event_queue_add_all(&mut event_queues, Ghost(known), threads);
        assert(threads@.len() == threads.len());
        let kind = EnclaveKind::Command(
            Command {
                threads,
                primary_panic_reason: None,
                other_reasons: Vec::new(),
                running_secondary_threads: 0,
                clean_exit: false,
            },
        );
        let enclave = EnclaveState::new(kind, event_queues, stdin, stdout, stderr);
        proof {
            assert(a.skip(1) =~= addresses(given));
            lemma_fresh_wf(enclave@, a, 1, given);
            assert(a[0] == main.address);
            assert(kind@->other_reasons =~= Seq::empty());
        }
        (enclave, main, receiver)
    }

    /// An enclave that is run as a library, with calls on the TCSs `threads`.
    pub fn library(threads: Vec<ErasedTcs<T>>, stdin: S, stdout: S, stderr: S) -> (enclave: Self)
        requires
            addresses(threads@).no_duplicates(),
        ensures
            enclave.wf(),
            enclave@ == EnclaveView::<T, S, L>::fresh(
                KindView::Library { threads: stopped(threads@) },
                addresses(threads@),
                stdin,
                stdout,
                stderr,
            ),
    {
        let ghost given = threads@;
        let ghost a = addresses(threads@);
        let mut event_queues: FnvHashMap<usize, EventQueue> = FnvHashMap::default();
        proof {
            assert(queue_views(event_queues@) =~= fresh_queues(Seq::empty()));
            assert(Seq::empty() + a =~= a);
        }
        let added = event_queue_add_all(&mut event_queues, Ghost(Seq::empty()), threads);
        let mut free: VecDeque<StoppedTcs<T>> = VecDeque::new();
        for tcs in it: added.into_iter()
            invariant
                it.seq() == stopped(given),
                free@ == stopped(given).take(it.index() as int),
        {
            free.push_back(tcs);
            assert(free@ =~= stopped(given).take(it.index() as int + 1));
        }
        assert(stopped(given).take(given.len() as int) =~= stopped(given));
        let kind = EnclaveKind::Library(Library { threads: free });
        let enclave = EnclaveState::new(kind, event_queues, stdin, stdout, stderr);
        proof {
            assert(a.skip(0) =~= addresses(given));
            lemma_fresh_wf(enclave@, a, 0, given);
        }
        enclave
    }

    /// Tells every thread of the enclave to go down.
    pub fn abort_all_threads(&mut self)
        requires
            old(self).wf(),
        ensures
            final(self).wf(),
            final(self)@ == old(self)@.aborted(),
            forall|a: usize|
                #[trigger] old(self)@.queues.contains_key(a) ==> {
                    &&& final(self)@.queues.contains_key(a)
                    &&& final(self)@.queues[a].events == (if old(self)@.queues[a].connected {
                        old(self)@.queues[a].events.push(8u8)
                    } else {
                        old(self)@.queues[a].events
                    })
                },
            final(self)@.exiting,
    {
        self.exiting = true;
        post_to_all(&mut self.event_queues, ABORT_EVENT);
        proof {
            law_step_keeps_order(old(self)@, Step::Abort);
        }
    }

    /// Whether the enclave is going down.
    pub fn is_exiting(&self) -> (exiting: bool)
        ensures
            exiting == self@.exiting,
    {
        self.exiting
    }

    /// The enclave asks to be destroyed. If it does so without a panic, a program that ends
    /// because of it ends well.
    pub fn exit(&mut self, panic: bool) -> (abort: EnclaveAbort<bool>)
        requires
            old(self).wf(),
        ensures
            final(self).wf(),
            final(self)@ == old(self)@.exited(panic),
            forall|a: usize|
                #[trigger] old(self)@.queues.contains_key(a) ==> {
                    &&& final(self)@.queues.contains_key(a)
                    &&& final(self)@.queues[a].events == (if old(self)@.queues[a].connected {
                        old(self)@.queues[a].events.push(8u8)
                    } else {
                        old(self)@.queues[a].events
                    })
                },
            final(self)@.exiting,
            abort == (EnclaveAbort::Exit { panic }),
    {
        self.abort_all_threads();
        if !panic {
            match &mut self.kind {
                EnclaveKind::Command(command) => {
                    command.clean_exit = true;
                },
                EnclaveKind::Library(_) => {},
            }
        }
        proof {
            assert(self@ =~= old(self)@.exited(panic));
            law_step_keeps_order(old(self)@, Step::Exit { panic });
        }
        EnclaveAbort::Exit { panic }
    }

    /// Takes a free TCS of a program, to be entered on a thread of its own. There is none
    /// to be had once the enclave is going down. If that thread cannot be had, the TCS has to
    /// be given up with `retire`.
    pub fn launch_thread(&mut self) -> (launched: Result<StoppedTcs<T>, ErrorKind>)
        requires
            old(self).wf(),
        ensures
            final(self).wf(),
            old(self)@.kind is Library ==> launched == Err::<StoppedTcs<T>, ErrorKind>(
                ErrorKind::InvalidInput,
            ),
            old(self)@.kind is Command && (old(self)@.exiting || old(self)@.pool().len() == 0)
                ==> launched == Err::<StoppedTcs<T>, ErrorKind>(ErrorKind::WouldBlock),
            launched is Err ==> final(self)@ == old(self)@,
            old(self)@.kind is Command && !old(self)@.exiting && old(self)@.pool().len() > 0 ==> {
                &&& launched == Ok::<StoppedTcs<T>, ErrorKind>(old(self)@.pool().last())
                &&& final(self)@ == old(self)@.launched()
                &&& final(self)@.checked_out(old(self)@.pool().last().address)
            },
    {
        if self.kind.as_command().is_none() {
            return Err(ErrorKind::InvalidInput);
        }
        if self.exiting {
            return Err(ErrorKind::WouldBlock);
        }
        let taken: Option<StoppedTcs<T>> = match &mut self.kind {
            EnclaveKind::Library(_) => None,
            EnclaveKind::Command(command) => {
                match command.threads.pop() {
                    Some(tcs) => {
                        command.running_secondary_threads = command.running_secondary_threads + 1;
                        Some(tcs)
                    },
                    None => None,
                }
            },
        };
        match taken {
            Some(tcs) => {
                proof {
                    assert(self@ =~= old(self)@.launched());
                    law_step_keeps_order(old(self)@, Step::Launch);
                    law_launch_once(old(self)@);
                }
                Ok(tcs)
            },
            None => {
                assert(self@.kind =~= old(self)@.kind);
                Err(ErrorKind::WouldBlock)
            },
        }
    }

    /// Gives up a TCS that somebody outside the pool owns: what is sent to it from
    /// now on is lost.
    pub fn retire(&mut self, tcs: StoppedTcs<T>)
        requires
            old(self).wf(),
            old(self)@.queues.contains_key(tcs.address.0),
            !old(self)@.in_pool(tcs.address),
        ensures
            final(self).wf(),
            final(self)@ == old(self)@.retired(tcs.address),
    {
        self.disconnect(tcs.address);
    }

    /// Marks the queue of the TCS at `address` as one that nobody reads.
    pub(crate) fn disconnect(&mut self, address: TcsAddress)
        requires
            old(self).wf(),
            old(self)@.queues.contains_key(address.0),
            !old(self)@.in_pool(address),
        ensures
            final(self).wf(),
            final(self)@ == old(self)@.retired(address),
    {
        match fnv_get_mut(&mut self.event_queues, &address.0) {
            Some(queue) => {
                queue.connected = false;
            },
            None => {},
        }
        proof {
            let v = old(self)@;
            lemma_queue_views_insert(
                old(self).event_queues@,
                address.0,
                self.event_queues@[address.0],
            );
            assert(self@ =~= v.retired(address));
            law_step_keeps_order(v, Step::Retire { address });
        }
    }

    /// The main thread is done: the free TCSs are given up, every other thread is told
    /// to go down, no thread can join any more, and the main thread begins to wait for
    /// those that are there.
    pub fn main_entry_stop(&mut self, sync: &mut GlobalSyncSender, receiver: &SyncReceiver)
        requires
            old(self).wf(),
            old(self)@.kind is Command,
            old(sync)@.wf(),
            old(sync)@.has(receiver.channel()),
        ensures
            final(sync)@.wf(),
            final(sync)@ == old(sync)@.cleared().receiving(receiver.channel()),
            final(self).wf(),
            final(self)@ == old(self)@.pool_retired().aborted(),
    {
        let mut free: Vec<StoppedTcs<T>> = Vec::new();
        match &mut self.kind {
            EnclaveKind::Command(command) => {
                std::mem::swap(&mut free, &mut command.threads);
            },
            EnclaveKind::Library(_) => {},
        }
        let ghost v = old(self)@;
        let ghost pool = v.pool();
        proof {
            assert(self@ =~= v.with_pool(Seq::empty()));
            assert(self@.pool() =~= Seq::empty());
        }
        let mut i: usize = 0;
        while i < free.len()
            invariant
                i <= free@.len(),
                free@ == pool,
                pool == v.pool(),
                v.wf(),
                self.wf(),
                self@.pool() =~= Seq::empty(),
                self@.kind == v.with_pool(Seq::empty()).kind,
                self@.fds == v.fds,
                self@.last_fd == v.last_fd,
                self@.exiting == v.exiting,
                self@.queues.dom() == v.queues.dom(),
                forall|a: usize|
                    #[trigger] v.queues.contains_key(a) ==> self@.queues[a] == (if exists|k: int|
                        0 <= k < i && (#[trigger] pool[k]).address == TcsAddress(a) {
                        v.queues[a].disconnected()
                    } else {
                        v.queues[a]
                    }),
            decreases free@.len() - i,
        {
            let address: TcsAddress = free[i].address;
            assert(pool[i as int].address == address);
            self.disconnect(address);
            i = i + 1;
        }
        assert(self@.queues =~= v.pool_retired().queues);
        assert(self@ =~= v.pool_retired());
        self.abort_all_threads();
        sync.clear();
        sync.begin_receiving(receiver);
    }

    /// How the enclave is run.
    pub fn kind(&self) -> (kind: &EnclaveKind<T>)
        ensures
            kind@ == self@.kind,
    {
        &self.kind
    }

    /// Keeps the reason for which a launched thread went down.
    fn keep_reason(&mut self, abort: EnclaveAbort<EnclavePanic>)
        requires
            old(self).wf(),
        ensures
            final(self).wf(),
            final(self)@ == old(self)@.reason_kept(abort),
    {
        match &mut self.kind {
            EnclaveKind::Command(command) => {
                match abort {
                    EnclaveAbort::Exit { .. } | EnclaveAbort::InvalidUsercall(_) => {
                        if command.primary_panic_reason.is_none() {
                            command.primary_panic_reason = Some(abort);
                        } else {
                            command.other_reasons.push(abort);
                        }
                    },
                    EnclaveAbort::Secondary => {},
                    _ => {
                        command.other_reasons.push(abort);
                    },
                }
            },
            EnclaveKind::Library(_) => {},
        }
        proof {
            assert(self@ =~= old(self)@.reason_kept(abort));
            law_step_keeps_order(old(self)@, Step::KeepReason { abort });
        }
    }

    /// A thread that was launched is done, for good or not. Its TCS, if it still has one,
    /// is given up, the reason for which it went down is kept, and the main thread need not
    /// wait for it any longer.
    pub fn launched_thread_end(
        &mut self,
        ended: Result<StoppedTcs<T>, EnclaveAbort<EnclavePanic>>,
        sync: &mut GlobalSyncSender,
        sender: SyncSender,
    )
        requires
            old(self).wf(),
            old(sync)@.wf(),
            old(sync)@.has(sender.channel()),
            old(sync)@.held(sender.channel()) >= 1,
            ended matches Ok(tcs) ==> old(self)@.queues.contains_key(tcs.address.0)
                && !old(self)@.in_pool(tcs.address),
        ensures
            final(self).wf(),
            final(self)@ == (match ended {
                Ok(tcs) => old(self)@.retired(tcs.address),
                Err(abort) => old(self)@.reason_kept(abort),
            }),
            final(sync)@.wf(),
            final(sync)@ == old(sync)@.changed(sender.channel(), -1),
    {
        match ended {
            Ok(tcs) => self.retire(tcs),
            Err(abort) => self.keep_reason(abort),
        }
        sync.drop_sender(sender);
    }

    /// The reason that brought a program down, if it was not the main thread's.
    pub fn primary_panic_reason(&self) -> (reason: Option<&EnclaveAbort<EnclavePanic>>)
        ensures
            reason == (match self@.primary_panic_reason() {
                Some(r) => Some(&r),
                None => None::<&EnclaveAbort<EnclavePanic>>,
            }),
    {
        match &self.kind {
            EnclaveKind::Command(command) => command.primary_panic_reason.as_ref(),
            EnclaveKind::Library(_) => None,
        }
    }

    /// Whether a thread has ended the program without a panic.
    pub fn clean_exit(&self) -> (clean: bool)
        ensures
            clean == self@.clean_exit(),
    {
        match &self.kind {
            EnclaveKind::Command(command) => command.clean_exit,
            EnclaveKind::Library(_) => false,
        }
    }

    /// Takes out the reason that brought a program down, if it was not the main thread's.
    pub(crate) fn take_primary_panic_reason(&mut self) -> (reason: Option<
        EnclaveAbort<EnclavePanic>,
    >)
        requires
            old(self).wf(),
        ensures
            final(self).wf(),
            reason == old(self)@.primary_panic_reason(),
            final(self)@ == old(self)@.primary_taken(),
    {
        let reason: Option<EnclaveAbort<EnclavePanic>> = match &mut self.kind {
            EnclaveKind::Command(command) => command.primary_panic_reason.take(),
            EnclaveKind::Library(_) => None,
        };
        proof {
            assert(self@ =~= old(self)@.primary_taken());
            law_step_keeps_order(old(self)@, Step::TakeReason);
        }
        reason
    }

    /// Takes the TCS that has been free longest, for a call into a library. There is
    /// none while all of them are in use: then the caller has to wait for one.
    pub fn library_entry_take(&mut self) -> (taken: Option<StoppedTcs<T>>)
        requires
            old(self).wf(),
            old(self)@.kind is Library,
        ensures
            final(self).wf(),
            old(self)@.pool().len() == 0 ==> taken is None && final(self)@ == old(self)@,
            old(self)@.pool().len() > 0 ==> {
                &&& taken == Some(old(self)@.pool()[0])
                &&& final(self)@ == old(self)@.with_pool(old(self)@.pool().drop_first())
                &&& final(self)@.checked_out(old(self)@.pool()[0].address)
            },
    {
        let taken: Option<StoppedTcs<T>> = match &mut self.kind {
            EnclaveKind::Library(library) => library.threads.pop_front(),
            EnclaveKind::Command(_) => None,
        };
        proof {
            let v = old(self)@;
            if v.pool().len() > 0 {
                assert(self@ =~= v.with_pool(v.pool().drop_first()));
                law_step_keeps_order(v, Step::Take);
                law_library_call_keeps_the_pool(v);
            } else {
                assert(self@.kind =~= v.kind);
            }
        }
        taken
    }

    /// Hands back a TCS after a call into a library.
    pub(crate) fn library_entry_put(&mut self, tcs: StoppedTcs<T>)
        requires
            old(self).wf(),
            old(self)@.kind is Library,
            old(self)@.checked_out(tcs.address),
        ensures
            final(self).wf(),
            final(self)@ == old(self)@.with_pool(old(self)@.pool().push(tcs)),
    {
        match &mut self.kind {
            EnclaveKind::Library(library) => {
                library.threads.push_back(tcs);
            },
            EnclaveKind::Command(_) => {},
        }
        proof {
            assert(self@ =~= old(self)@.with_pool(old(self)@.pool().push(tcs)));
            law_step_keeps_order(old(self)@, Step::Put { tcs });
        }
    }

    /// What the descriptor `fd` stands for.
    pub fn lookup_fd(&self, fd: Fd) -> (found: Result<&FileDesc<S, L>, ErrorKind>)
        ensures
            found == (if self@.fds.contains_key(fd) {
                Ok::<&FileDesc<S, L>, ErrorKind>(&self@.fds[fd])
            } else {
                Err::<&FileDesc<S, L>, ErrorKind>(ErrorKind::BrokenPipe)
            }),
    {
        match fnv_get(&self.fds, &fd) {
            Some(desc) => Ok(desc),
            None => Err(ErrorKind::BrokenPipe),
        }
    }

    /// The stream that the descriptor `fd` stands for.
    pub fn lookup_stream(&self, fd: Fd) -> (found: Result<&S, ErrorKind>)
        ensures
            found == (if !self@.fds.contains_key(fd) {
                Err::<&S, ErrorKind>(ErrorKind::BrokenPipe)
            } else {
                match self@.fds[fd] {
                    FileDesc::Stream(s) => Ok::<&S, ErrorKind>(&s),
                    FileDesc::Listener(_) => Err::<&S, ErrorKind>(ErrorKind::InvalidInput),
                }
            }),
    {
        match self.lookup_fd(fd) {
            Ok(desc) => desc.as_stream(),
            Err(e) => Err(e),
        }
    }

    /// The listening socket that the descriptor `fd` stands for.
    pub fn lookup_listener(&self, fd: Fd) -> (found: Result<&L, ErrorKind>)
        ensures
            found == (if !self@.fds.contains_key(fd) {
                Err::<&L, ErrorKind>(ErrorKind::BrokenPipe)
            } else {
                match self@.fds[fd] {
                    FileDesc::Listener(l) => Ok::<&L, ErrorKind>(&l),
                    FileDesc::Stream(_) => Err::<&L, ErrorKind>(ErrorKind::InvalidInput),
                }
            }),
    {
        match self.lookup_fd(fd) {
            Ok(desc) => desc.as_listener(),
            Err(e) => Err(e),
        }
    }

    /// Whether another descriptor can be opened.
    pub fn fd_available(&self) -> (available: bool)
        ensures
            available == (self@.last_fd < usize::MAX),
    {
        self.last_fd < usize::MAX
    }

    /// Opens a descriptor for `desc`, one that has never been open before.
    pub fn alloc_fd(&mut self, desc: FileDesc<S, L>) -> (fd: Fd)
        requires
            old(self).wf(),
            old(self)@.last_fd < usize::MAX,
        ensures
            final(self).wf(),
            fd == old(self)@.last_fd + 1,
            !old(self)@.fds.contains_key(fd),
            final(self)@ == old(self)@.with_new_fd(desc),
            final(self)@.last_fd == fd,
            final(self)@.fds == old(self)@.fds.insert(fd, desc),
    {
        self.last_fd = self.last_fd + 1;
        let fd: Fd = self.last_fd as Fd;
        let prev = fnv_insert(&mut self.fds, fd, desc);
        assert(prev is None);
        proof {
            law_step_keeps_order(old(self)@, Step::Open { desc });
        }
        fd
    }

    /// Closes the descriptor `fd`, if it is open.
    pub fn close(&mut self, fd: Fd)
        requires
            old(self).wf(),
        ensures
            final(self).wf(),
            final(self)@ == old(self)@.without_fd(fd),
            !final(self)@.fds.contains_key(fd),
            forall|other: Fd|
                other != fd && #[trigger] old(self)@.fds.contains_key(other) ==> {
                    &&& final(self)@.fds.contains_key(other)
                    &&& final(self)@.fds[other] == old(self)@.fds[other]
                },
    {
        let _ = fnv_remove(&mut self.fds, &fd);
        proof {
            law_step_keeps_order(old(self)@, Step::Close { fd });
        }
    }

    /// Sends the events `event_set` to the TCS at `target`, or to all of them. The
    /// target must be one that somebody still owns.
    pub fn send(&mut self, event_set: u64, target: Option<TcsAddress>) -> (sent: Result<
        (),
        ErrorKind,
    >)
        requires
            old(self).wf(),
            old(self)@.send_result(event_set, target) is Ok ==> (target matches Some(a)
                ==> old(self)@.queues[a.0].connected),
        ensures
            final(self).wf(),
            sent == old(self)@.send_result(event_set, target),
            final(self)@ == old(self)@.after_send(event_set, target),
            sent is Ok <==> 1 <= event_set < 8 && (target matches Some(a)
                ==> old(self)@.queues.contains_key(a.0)),
            sent is Err ==> final(self)@ == old(self)@,
            sent is Ok ==> forall|a: usize|
                #[trigger] old(self)@.queues.contains_key(a) ==> {
                    &&& final(self)@.queues.contains_key(a)
                    &&& final(self)@.queues[a].events == (if old(self)@.queues[a].connected && (
                    target is None || target == Some(TcsAddress(a))) {
                        old(self)@.queues[a].events.push(event_set as u8)
                    } else {
                        old(self)@.queues[a].events
                    })
                },
    {
        proof {
            law_refused_sends(self@, event_set, target);
        }
        let event: u8 = match check_event_set(event_set) {
            Ok(event) => event,
            Err(e) => {
                return Err(e);
            },
        };
        if event == 0 {
            return Err(ErrorKind::InvalidInput);
        }
        proof {
            law_step_keeps_order(old(self)@, Step::Send { event_set, target });
            assert forall|a: usize| #[trigger]
                old(self)@.queues.contains_key(a) && old(self)@.send_result(event_set, target) is Ok
                implies old(self)@.after_send(event_set, target).queues.contains_key(a) by {
                law_send_appends(old(self)@, event_set, target, a);
            }
        }
        match target {
            Some(address) => {
                if fnv_get(&self.event_queues, &address.0).is_none() {
                    return Err(ErrorKind::InvalidInput);
                }
                post(&mut self.event_queues, address.0, event);
                assert(self@ =~= old(self)@.sent_to(address, event));
            },
            None => {
                post_to_all(&mut self.event_queues, event);
            },
        }
        Ok(())
    }

    /// Whether these events would be sent to a TCS of the enclave that nobody owns any more.
    pub fn is_target_gone(&self, event_set: u64, target: Option<TcsAddress>) -> (gone: bool)
        ensures
            gone == (self@.send_result(event_set, target) is Ok && (target matches Some(a)
                && !self@.queues[a.0].connected)),
            gone <==> 1 <= event_set < 8 && (target matches Some(a)
                && self@.queues.contains_key(a.0) && !self@.queues[a.0].connected),
    {
        proof {
            law_refused_sends(self@, event_set, target);
        }
        match (check_event_set(event_set), target) {
            (Ok(event), Some(address)) => match fnv_get(&self.event_queues, &address.0) {
                Some(queue) => event != 0 && !queue.connected,
                None => false,
            },
            _ => false,
        }
    }

    /// Takes the next event for a wait of the TCS at `address` off `pending` or off its
    /// queue.
    pub(crate) fn receive(
        &mut self,
        address: TcsAddress,
        pending: &mut VecDeque<u8>,
        pending_set: &mut u8,
        mask: u8,
        indefinite: bool,
    ) -> (outcome: Wait)
        requires
            old(self)@.queues.contains_key(address.0),
            *old(pending_set) == event_union(old(pending)@),
        ensures
            *final(pending_set) == event_union(final(pending)@),
            ({
                let delivery = deliver(
                    old(pending)@,
                    old(self)@.queues[address.0].events,
                    mask,
                    indefinite,
                );
                &&& outcome == delivery.outcome
                &&& final(pending)@ == delivery.pending
                &&& final(self)@ == old(self)@.with_events(address, delivery.queue)
            }),
    {
        let outcome: Wait = match fnv_get_mut(&mut self.event_queues, &address.0) {
            Some(queue) => take_event(pending, pending_set, &mut queue.events, mask, indefinite),
            None => Wait::Blocked,
        };
        proof {
            let queue = self.event_queues@[address.0];
            lemma_queue_views_insert(old(self).event_queues@, address.0, queue);
            assert(self@ =~= old(self)@.with_events(address, queue.events@));
        }
        outcome
    }

    /// Whether somebody owns the TCS at `address`, so that events can be sent to it.
    pub fn is_connected(&self, address: TcsAddress) -> (connected: bool)
        ensures
            connected == (self@.queues.contains_key(address.0)
                && self@.queues[address.0].connected),
    {
        match fnv_get(&self.event_queues, &address.0) {
            Some(queue) => queue.connected,
            None => false,
        }
    }
}

} // verus!
