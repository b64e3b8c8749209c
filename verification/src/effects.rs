//! What each operation does to the parts of the state of an enclave, and what it leaves alone.
use crate::abi::Fd;
use crate::abort::{EnclaveAbort, EnclavePanic};
use crate::error::ErrorKind;
use crate::event::{deliver, law_event_sets, lemma_sent_event, Wait};
use crate::fd::FileDesc;
use crate::laws::law_abort_ends_waits;
use crate::tcs::{StoppedTcs, TcsAddress};
use crate::view::{EnclaveView, KindView};
use vstd::prelude::*;

verus! {

/// Which TCSs are free, and which of the others somebody owns.
pub proof fn law_free_and_owned<T, S, L>(v: EnclaveView<T, S, L>, address: TcsAddress)
    ensures
        v.kind is Command ==> v.pool() == v.kind->Command_threads,
        v.kind is Library ==> v.pool() == v.kind->Library_threads,
        v.in_pool(address) <==> exists|i: int|
            0 <= i < v.pool().len() && (#[trigger] v.pool()[i]).address.0 == address.0,
        v.checked_out(address) <==> v.queues.contains_key(address.0)
            && v.queues[address.0].connected && !v.in_pool(address),
{
    if v.in_pool(address) {
        let i = choose|i: int|
            0 <= i < v.pool().len() && (#[trigger] v.pool()[i]).address == address;
        assert(v.pool()[i].address.0 == address.0);
    }
    if exists|i: int| 0 <= i < v.pool().len() && (#[trigger] v.pool()[i]).address.0 == address.0 {
        let i = choose|i: int|
            0 <= i < v.pool().len() && (#[trigger] v.pool()[i]).address.0 == address.0;
        assert(v.pool()[i].address == address);
    }
}

/// An enclave that has not run yet has an empty queue for each of its TCSs and for no other, and
/// the three standard streams, in their order, as its only descriptors. It is not going down.
pub proof fn law_fresh_enclave<T, S, L>(
    kind: KindView<T>,
    a: Seq<TcsAddress>,
    stdin: S,
    stdout: S,
    stderr: S,
    x: usize,
    fd: Fd,
)
    ensures
        ({
            let v = EnclaveView::<T, S, L>::fresh(kind, a, stdin, stdout, stderr);
            &&& v.kind == kind
            &&& v.queues.contains_key(x) <==> exists|i: int|
                0 <= i < a.len() && (#[trigger] a[i]).0 == x
            &&& v.queues.contains_key(x) ==> v.queues[x].events.len() == 0
                && v.queues[x].connected
            &&& v.fds.contains_key(fd) <==> fd < 3
            &&& v.fds[0] == FileDesc::<S, L>::Stream(stdin)
            &&& v.fds[1] == FileDesc::<S, L>::Stream(stdout)
            &&& v.fds[2] == FileDesc::<S, L>::Stream(stderr)
            &&& v.last_fd == 2
            &&& !v.exiting
        }),
{
    let v = EnclaveView::<T, S, L>::fresh(kind, a, stdin, stdout, stderr);
    if v.queues.contains_key(x) {
        let i = choose|i: int| 0 <= i < a.len() && a[i] == TcsAddress(x);
        assert(a[i].0 == x);
    }
    if exists|i: int| 0 <= i < a.len() && (#[trigger] a[i]).0 == x {
        let i = choose|i: int| 0 <= i < a.len() && (#[trigger] a[i]).0 == x;
        assert(a[i] == TcsAddress(x));
        assert(a.contains(TcsAddress(x)));
    }
}

/// Which sends are refused: those of no event, of one that the enclave may not name, and to a TCS
/// that the enclave does not have. They change nothing.
pub proof fn law_refused_sends<T, S, L>(
    v: EnclaveView<T, S, L>,
    event_set: u64,
    target: Option<TcsAddress>,
)
    ensures
        1 <= event_set < 8 && (target matches Some(a) ==> v.queues.contains_key(a.0)) ==> v.send_result(event_set, target) == Ok::<(), ErrorKind>(()),
        event_set == 0 || event_set >= 8 || (target matches Some(a) && !v.queues.contains_key(a.0))
            ==> v.send_result(event_set, target) == Err::<(), ErrorKind>(ErrorKind::InvalidInput)
            && v.after_send(event_set, target) == v,
{
    law_event_sets(event_set, 0, 0);
}

/// A send puts one event at the end of the queue of its target, or of all queues if it has none,
/// whatever was on the queue before. The queue of a TCS that has been given up stays as it is, and
/// so does everything else.
pub proof fn law_send_appends<T, S, L>(
    v: EnclaveView<T, S, L>,
    event_set: u64,
    target: Option<TcsAddress>,
    a: usize,
)
    requires
        v.send_result(event_set, target) is Ok,
        v.queues.contains_key(a),
    ensures
        ({
            let w = v.after_send(event_set, target);
            let reached = target is None || target == Some(TcsAddress(a));
            &&& w.queues.dom() == v.queues.dom()
            &&& w.queues[a].connected == v.queues[a].connected
            &&& reached && v.queues[a].connected ==> w.queues[a].events == v.queues[a].events.push(
                event_set as u8,
            )
            &&& !reached || !v.queues[a].connected ==> w.queues[a].events == v.queues[a].events
            &&& (event_set as u8) as u64 == event_set
            &&& w.kind == v.kind
            &&& w.fds == v.fds
            &&& w.last_fd == v.last_fd
            &&& w.exiting == v.exiting
        }),
{
    lemma_sent_event(event_set);
    assert(v.after_send(event_set, target).queues.dom() =~= v.queues.dom());
}

/// Telling the threads to go down puts one abort at the end of each queue whose TCS somebody owns,
/// whatever was on it before, and marks the enclave. Everything else stays.
pub proof fn law_abort_appends<T, S, L>(v: EnclaveView<T, S, L>, a: usize)
    requires
        v.queues.contains_key(a),
    ensures
        ({
            let w = v.aborted();
            &&& w.exiting
            &&& w.queues.dom() == v.queues.dom()
            &&& w.queues[a].connected == v.queues[a].connected
            &&& v.queues[a].connected ==> w.queues[a].events == v.queues[a].events.push(8u8)
            &&& !v.queues[a].connected ==> w.queues[a].events == v.queues[a].events
            &&& w.kind == v.kind
            &&& w.fds == v.fds
            &&& w.last_fd == v.last_fd
        }),
{
    assert(v.aborted().queues.dom() =~= v.queues.dom());
}

/// An exit marks the enclave and puts one abort at the end of each queue whose TCS somebody owns,
/// be it in a panic or not, and be the enclave a program or a library. It leaves the free TCSs and
/// the reasons alone, and a program remembers an exit without a panic.
pub proof fn law_exit_appends<T, S, L>(v: EnclaveView<T, S, L>, panic: bool, a: usize)
    requires
        v.queues.contains_key(a),
    ensures
        ({
            let w = v.exited(panic);
            &&& w.exiting
            &&& w.queues.dom() == v.queues.dom()
            &&& w.queues[a].connected == v.queues[a].connected
            &&& v.queues[a].connected ==> w.queues[a].events == v.queues[a].events.push(8u8)
            &&& !v.queues[a].connected ==> w.queues[a].events == v.queues[a].events
            &&& w.fds == v.fds
            &&& w.last_fd == v.last_fd
            &&& v.kind is Library ==> w.kind == v.kind
            &&& v.kind is Command ==> {
                &&& w.kind is Command
                &&& w.kind->Command_threads == v.kind->Command_threads
                &&& w.kind->primary_panic_reason == v.kind->primary_panic_reason
                &&& w.kind->other_reasons == v.kind->other_reasons
                &&& w.kind->running_secondary_threads == v.kind->running_secondary_threads
                &&& w.kind->clean_exit == (v.kind->clean_exit || !panic)
            }
        }),
{
    assert(v.exited(panic).queues.dom() =~= v.queues.dom());
}

/// After an exit, in a panic or not, the next wait of every thread that is alive is over at once: it
/// gets an event or learns of the abort.
pub proof fn law_exit_ends_waits<T, S, L>(
    v: EnclaveView<T, S, L>,
    panic: bool,
    a: TcsAddress,
    pending: Seq<u8>,
    mask: u8,
    indefinite: bool,
)
    requires
        v.queues.contains_key(a.0),
        v.queues[a.0].connected,
    ensures
        ({
            let queue = v.exited(panic).queues[a.0].events;
            let outcome = deliver(pending, queue, mask, indefinite).outcome;
            ||| outcome matches Wait::Ready(Ok(_))
            ||| outcome == Wait::Ready(Err(ErrorKind::Other))
        }),
{
    law_exit_appends(v, panic, a.0);
    let queue = v.exited(panic).queues[a.0].events;
    let n = queue.len() - 1;
    assert(queue[n] == 8);
    assert(8u8 & 8u8 == 8u8) by (bit_vector);
    law_abort_ends_waits(pending, queue, mask, indefinite, n);
}

/// A wait changes the queue of its own TCS, and nothing else.
pub proof fn law_wait_is_private<T, S, L>(
    v: EnclaveView<T, S, L>,
    address: TcsAddress,
    events: Seq<u8>,
    a: usize,
)
    requires
        v.queues.contains_key(address.0),
    ensures
        ({
            let w = v.with_events(address, events);
            &&& w.queues.dom() == v.queues.dom()
            &&& w.queues[address.0].events == events
            &&& w.queues[address.0].connected == v.queues[address.0].connected
            &&& a != address.0 ==> w.queues[a] == v.queues[a]
            &&& w.kind == v.kind
            &&& w.fds == v.fds
            &&& w.last_fd == v.last_fd
            &&& w.exiting == v.exiting
        }),
{
    assert(v.with_events(address, events).queues.dom() =~= v.queues.dom());
}

/// Giving up a TCS closes its queue, with what is on it, and changes nothing else.
pub proof fn law_retire_closes_one_queue<T, S, L>(
    v: EnclaveView<T, S, L>,
    address: TcsAddress,
    a: usize,
)
    requires
        v.queues.contains_key(address.0),
    ensures
        ({
            let w = v.retired(address);
            &&& w.queues.dom() == v.queues.dom()
            &&& !w.queues[address.0].connected
            &&& w.queues[address.0].events == v.queues[address.0].events
            &&& a != address.0 ==> w.queues[a] == v.queues[a]
            &&& w.kind == v.kind
            &&& w.fds == v.fds
            &&& w.last_fd == v.last_fd
            &&& w.exiting == v.exiting
        }),
{
    assert(v.retired(address).queues.dom() =~= v.queues.dom());
}

/// A launch takes the last free TCS and counts the thread, and changes nothing else.
pub proof fn law_launch_takes_one<T, S, L>(v: EnclaveView<T, S, L>)
    requires
        v.kind is Command,
        v.pool().len() > 0,
    ensures
        ({
            let w = v.launched();
            &&& w.kind is Command
            &&& w.kind->Command_threads.push(v.kind->Command_threads.last())
                == v.kind->Command_threads
            &&& w.kind->running_secondary_threads == v.kind->running_secondary_threads + 1
            &&& w.kind->primary_panic_reason == v.kind->primary_panic_reason
            &&& w.kind->other_reasons == v.kind->other_reasons
            &&& w.kind->clean_exit == v.kind->clean_exit
            &&& w.queues == v.queues
            &&& w.fds == v.fds
            &&& w.last_fd == v.last_fd
            &&& w.exiting == v.exiting
        }),
{
    let threads = v.kind->Command_threads;
    assert(threads.drop_last().push(threads.last()) =~= threads);
}

/// The end of the main thread leaves no TCS free and closes the queues of those that were, with what
/// is on them. Every other queue whose TCS somebody owns gets one abort at its end. The enclave is
/// marked, and everything else stays.
pub proof fn law_stop_effect<T, S, L>(v: EnclaveView<T, S, L>, a: usize)
    requires
        v.kind is Command,
        v.queues.contains_key(a),
    ensures
        ({
            let w = v.pool_retired().aborted();
            let free = exists|i: int|
                0 <= i < v.kind->Command_threads.len() && (
                #[trigger] v.kind->Command_threads[i]).address.0 == a;
            &&& w.exiting
            &&& w.queues.dom() == v.queues.dom()
            &&& free ==> !w.queues[a].connected && w.queues[a].events == v.queues[a].events
            &&& !free && v.queues[a].connected ==> w.queues[a].connected && w.queues[a].events
                == v.queues[a].events.push(8u8)
            &&& !free && !v.queues[a].connected ==> w.queues[a] == v.queues[a]
            &&& w.kind is Command
            &&& w.kind->Command_threads.len() == 0
            &&& w.kind->primary_panic_reason == v.kind->primary_panic_reason
            &&& w.kind->other_reasons == v.kind->other_reasons
            &&& w.kind->running_secondary_threads == v.kind->running_secondary_threads
            &&& w.kind->clean_exit == v.kind->clean_exit
            &&& w.fds == v.fds
            &&& w.last_fd == v.last_fd
        }),
{
    assert(v.pool_retired().aborted().queues.dom() =~= v.queues.dom());
    law_free_and_owned(v, TcsAddress(a));
}

/// Taking a free TCS of a library, or handing one back, changes which ones are free, and nothing
/// else.
pub proof fn law_other_free_tcss<T, S, L>(v: EnclaveView<T, S, L>, pool: Seq<StoppedTcs<T>>)
    requires
        v.kind is Library,
    ensures
        v.with_pool(pool).kind is Library,
        v.with_pool(pool).kind->Library_threads == pool,
        v.with_pool(pool).queues == v.queues,
        v.with_pool(pool).fds == v.fds,
        v.with_pool(pool).last_fd == v.last_fd,
        v.with_pool(pool).exiting == v.exiting,
{
}

/// What becomes of the reason of a launched thread. A panic and an invalid usercall bring the
/// program down: the first of them is the primary reason, and the others come after the reasons
/// that were there. So do the reasons that concern the thread alone. That a thread went down with
/// another one is not kept. Nothing else changes.
pub proof fn law_kept_reason<T, S, L>(v: EnclaveView<T, S, L>, abort: EnclaveAbort<EnclavePanic>)
    ensures
        ({
            let w = v.reason_kept(abort);
            let brings_down = match abort {
                EnclaveAbort::Exit { .. } => true,
                EnclaveAbort::InvalidUsercall(_) => true,
                EnclaveAbort::Secondary => false,
                EnclaveAbort::IndefiniteWait => false,
                EnclaveAbort::MainReturned => false,
            };
            let first = brings_down && v.kind->primary_panic_reason is None;
            &&& w.queues == v.queues
            &&& w.fds == v.fds
            &&& w.last_fd == v.last_fd
            &&& w.exiting == v.exiting
            &&& v.kind is Library ==> w.kind == v.kind
            &&& v.kind is Command ==> {
                &&& w.kind is Command
                &&& w.kind->Command_threads == v.kind->Command_threads
                &&& w.kind->running_secondary_threads == v.kind->running_secondary_threads
                &&& w.kind->clean_exit == v.kind->clean_exit
                &&& first ==> w.kind->primary_panic_reason == Some(abort)
                &&& !first ==> w.kind->primary_panic_reason == v.kind->primary_panic_reason
                &&& first || abort == EnclaveAbort::<EnclavePanic>::Secondary
                    ==> w.kind->other_reasons == v.kind->other_reasons
                &&& !first && abort != EnclaveAbort::<EnclavePanic>::Secondary
                    ==> w.kind->other_reasons == v.kind->other_reasons.push(abort)
            }
        }),
{
}

/// Taking out the primary reason of a program leaves none, and changes nothing else. It and the
/// record of an exit without a panic are those of the program; a library has neither.
pub proof fn law_taken_reason<T, S, L>(v: EnclaveView<T, S, L>)
    ensures
        ({
            let w = v.primary_taken();
            &&& w.queues == v.queues
            &&& w.fds == v.fds
            &&& w.last_fd == v.last_fd
            &&& w.exiting == v.exiting
            &&& v.kind is Library ==> {
                &&& w.kind == v.kind
                &&& v.primary_panic_reason() is None
                &&& !v.clean_exit()
            }
            &&& v.kind is Command ==> {
                &&& w.kind is Command
                &&& w.kind->Command_threads == v.kind->Command_threads
                &&& w.kind->primary_panic_reason is None
                &&& w.kind->other_reasons == v.kind->other_reasons
                &&& w.kind->running_secondary_threads == v.kind->running_secondary_threads
                &&& w.kind->clean_exit == v.kind->clean_exit
                &&& v.primary_panic_reason() == v.kind->primary_panic_reason
                &&& v.clean_exit() == v.kind->clean_exit
            }
        }),
{
}

/// Opening a descriptor makes one that is above all that were opened before, and changes nothing
/// else.
pub proof fn law_open_adds_one<T, S, L>(v: EnclaveView<T, S, L>, desc: FileDesc<S, L>, other: Fd)
    requires
        v.wf(),
        v.last_fd < usize::MAX,
    ensures
        ({
            let w = v.with_new_fd(desc);
            let fd = (v.last_fd + 1) as Fd;
            &&& fd == v.last_fd + 1
            &&& w.last_fd == fd
            &&& v.fds.contains_key(other) ==> other < fd
            &&& w.fds.contains_key(other) <==> other == fd || v.fds.contains_key(other)
            &&& w.fds[fd] == desc
            &&& other != fd ==> w.fds[other] == v.fds[other]
            &&& w.kind == v.kind
            &&& w.queues == v.queues
            &&& w.exiting == v.exiting
        }),
{
}

/// A descriptor that is closed is not open any more, whichever it is, and every other one stands for
/// what it stood for. Nothing else changes.
pub proof fn law_close_removes_one<T, S, L>(v: EnclaveView<T, S, L>, fd: Fd, other: Fd)
    ensures
        ({
            let w = v.without_fd(fd);
            &&& !w.fds.contains_key(fd)
            &&& other != fd ==> (w.fds.contains_key(other) <==> v.fds.contains_key(other))
            &&& other != fd && v.fds.contains_key(other) ==> w.fds[other] == v.fds[other]
            &&& w.last_fd == v.last_fd
            &&& w.kind == v.kind
            &&& w.queues == v.queues
            &&& w.exiting == v.exiting
        }),
{
}

} // verus!
