//! The life of an enclave, step by step.
//!
//! Whatever the threads of an enclave do, they do it in some order, one step after the
//! other. What is shown here holds after any number of steps.
use crate::abi::Fd;
use crate::abort::{EnclaveAbort, EnclavePanic};
use crate::effects::{law_refused_sends, law_send_appends};
use crate::error::ErrorKind;
use crate::event::{
    deliver, hits, is_queued_event, is_sent_event, lemma_sent_event, Wait, ABORT_EVENT,
};
use crate::fd::FileDesc;
use crate::laws::{all_queued, all_sent, law_abort_ends_waits, law_wait_gives_what_was_asked};
use crate::outcome::{main_reason, Entered};
use crate::tcs::{StoppedTcs, TcsAddress};
use crate::view::{is_primary, EnclaveView, QueueView};
use vstd::prelude::*;

verus! {

/// Something that a thread does to the state of an enclave.
pub enum Step<T, S, L> {
    /// Tells every thread to go down.
    Abort,
    /// Asks for the enclave to be destroyed.
    Exit {
        /// Whether this is in a panic.
        panic: bool,
    },
    /// Sends events to one TCS or to all.
    Send {
        /// The events.
        event_set: u64,
        /// The TCS, if it is one.
        target: Option<TcsAddress>,
    },
    /// Takes events off a queue.
    Receive {
        /// The TCS whose queue it is.
        address: TcsAddress,
        /// What the thread has kept aside before.
        pending: Seq<u8>,
        /// The events it waits for.
        mask: u8,
        /// Whether it waits for as long as it takes.
        indefinite: bool,
    },
    /// Gives up a TCS.
    Retire {
        /// The TCS.
        address: TcsAddress,
    },
    /// Launches a thread of a program.
    Launch,
    /// Ends the main thread of a program.
    Stop,
    /// Takes a free TCS of a library.
    Take,
    /// Hands back a TCS of a library.
    Put {
        /// The TCS.
        tcs: StoppedTcs<T>,
    },
    /// Ends a launched thread that went down.
    KeepReason {
        /// The reason for which it did.
        abort: EnclaveAbort<EnclavePanic>,
    },
    /// Takes out the reason that brought a program down.
    TakeReason,
    /// Opens a descriptor.
    Open {
        /// What it stands for.
        desc: FileDesc<S, L>,
    },
    /// Closes a descriptor.
    Close {
        /// The descriptor.
        fd: Fd,
    },
}

impl<T, S, L> EnclaveView<T, S, L> {
    /// Whether the step can be made.
    pub open spec fn allows(self, step: Step<T, S, L>) -> bool {
        match step {
            Step::Abort => true,
            Step::Exit { .. } => true,
            Step::Send { .. } => true,
            Step::Receive { address, pending, .. } => self.queues.contains_key(address.0)
                && all_sent(pending),
            Step::Retire { address } => self.queues.contains_key(address.0) && !self.in_pool(
                address,
            ),
            Step::Launch => self.kind is Command && !self.exiting && self.pool().len() > 0,
            Step::Stop => self.kind is Command,
            Step::Take => self.kind is Library && self.pool().len() > 0,
            Step::Put { tcs } => self.kind is Library && self.checked_out(tcs.address),
            Step::KeepReason { .. } => true,
            Step::TakeReason => true,
            Step::Open { .. } => self.last_fd < usize::MAX,
            Step::Close { .. } => true,
        }
    }

    /// The state after the step.
    pub open spec fn after(self, step: Step<T, S, L>) -> Self {
        match step {
            Step::Abort => self.aborted(),
            Step::Exit { panic } => self.exited(panic),
            Step::Send { event_set, target } => self.after_send(event_set, target),
            Step::Receive { address, pending, mask, indefinite } => self.with_events(
                address,
                deliver(pending, self.queues[address.0].events, mask, indefinite).queue,
            ),
            Step::Retire { address } => self.retired(address),
            Step::Launch => self.launched(),
            Step::Stop => self.pool_retired().aborted(),
            Step::Take => self.with_pool(self.pool().drop_first()),
            Step::Put { tcs } => self.with_pool(self.pool().push(tcs)),
            Step::KeepReason { abort } => self.reason_kept(abort),
            Step::TakeReason => self.primary_taken(),
            Step::Open { desc } => self.with_new_fd(desc),
            Step::Close { fd } => self.without_fd(fd),
        }
    }

    /// Whether the steps can be made one after the other.
    pub open spec fn allows_all(self, steps: Seq<Step<T, S, L>>) -> bool
        decreases steps.len(),
    {
        steps.len() == 0 || {
            &&& self.allows_all(steps.drop_last())
            &&& self.after_all(steps.drop_last()).allows(steps.last())
        }
    }

    /// The state after the steps.
    pub open spec fn after_all(self, steps: Seq<Step<T, S, L>>) -> Self
        decreases steps.len(),
    {
        if steps.len() == 0 {
            self
        } else {
            self.after_all(steps.drop_last()).after(steps.last())
        }
    }
}

/// A change of the event queues alone keeps the enclave in order, if it makes and takes away no
/// queue, leaves only events that make sense on them, and does not give up a free TCS.
proof fn lemma_queues_changed_wf<T, S, L>(v: EnclaveView<T, S, L>, queues: Map<usize, QueueView>)
    requires
        v.wf(),
        queues.dom() == v.queues.dom(),
        forall|a: usize| #[trigger] queues.contains_key(a) ==> all_queued(queues[a].events),
        forall|a: usize|
            #[trigger] queues.contains_key(a) && v.queues[a].connected && v.in_pool(TcsAddress(a))
                ==> queues[a].connected,
    ensures
        v.with_queues(queues).wf(),
{
    let w = v.with_queues(queues);
    assert(w.pool() == v.pool());
    assert forall|a: usize, i: int|
        w.queues.contains_key(a) && 0 <= i < w.queues[a].events.len() implies is_queued_event(
        #[trigger] w.queues[a].events[i],
    ) by {
        assert(all_queued(queues[a].events));
    }
    assert forall|i: int| 0 <= i < w.pool().len() implies {
        &&& w.queues.contains_key((#[trigger] w.pool()[i]).address.0)
        &&& w.queues[w.pool()[i].address.0].connected
    } by {
        let address = v.pool()[i].address;
        assert(TcsAddress(address.0) == address);
        assert(v.in_pool(address));
        assert(queues.contains_key(address.0));
    }
}

/// The events on each queue of an enclave in order make sense.
proof fn lemma_queue_in_order<T, S, L>(v: EnclaveView<T, S, L>, a: usize)
    requires
        v.wf(),
        v.queues.contains_key(a),
    ensures
        all_queued(v.queues[a].events),
{
    assert forall|i: int| 0 <= i < v.queues[a].events.len() implies is_queued_event(
        #[trigger] v.queues[a].events[i],
    ) by {}
}

/// Sending an event that makes sense to all TCSs keeps the enclave in order.
proof fn lemma_sent_to_all_wf<T, S, L>(v: EnclaveView<T, S, L>, ev: u8)
    requires
        v.wf(),
        is_queued_event(ev),
    ensures
        v.sent_to_all(ev).wf(),
{
    let queues = v.sent_to_all(ev).queues;
    assert(queues.dom() =~= v.queues.dom());
    assert forall|a: usize| #[trigger] queues.contains_key(a) implies all_queued(
        queues[a].events,
    ) by {
        lemma_queue_in_order(v, a);
    }
    lemma_queues_changed_wf(v, queues);
}

/// Sending an event that makes sense to one TCS keeps the enclave in order.
proof fn lemma_sent_to_wf<T, S, L>(v: EnclaveView<T, S, L>, address: TcsAddress, ev: u8)
    requires
        v.wf(),
        v.queues.contains_key(address.0),
        is_queued_event(ev),
    ensures
        v.sent_to(address, ev).wf(),
{
    let queues = v.sent_to(address, ev).queues;
    assert(queues.dom() =~= v.queues.dom());
    assert forall|a: usize| #[trigger] queues.contains_key(a) implies all_queued(
        queues[a].events,
    ) by {
        lemma_queue_in_order(v, a);
    }
    lemma_queues_changed_wf(v, queues);
}

/// Giving up a TCS that is not free keeps the enclave in order.
proof fn lemma_retired_wf<T, S, L>(v: EnclaveView<T, S, L>, address: TcsAddress)
    requires
        v.wf(),
        v.queues.contains_key(address.0),
        !v.in_pool(address),
    ensures
        v.retired(address).wf(),
{
    let queues = v.retired(address).queues;
    assert(TcsAddress(address.0) == address);
    assert(queues.dom() =~= v.queues.dom());
    assert forall|a: usize| #[trigger] queues.contains_key(a) implies all_queued(
        queues[a].events,
    ) by {
        lemma_queue_in_order(v, a);
    }
    lemma_queues_changed_wf(v, queues);
}

/// A wait keeps the enclave in order. What it keeps aside was sent by the enclave, and so was the
/// event that it gives back.
pub(crate) proof fn lemma_deliver_keeps_order<T, S, L>(
    v: EnclaveView<T, S, L>,
    address: TcsAddress,
    pending: Seq<u8>,
    mask: u8,
    indefinite: bool,
)
    requires
        v.wf(),
        v.queues.contains_key(address.0),
        all_sent(pending),
    ensures
        ({
            let d = deliver(pending, v.queues[address.0].events, mask, indefinite);
            &&& v.with_events(address, d.queue).wf()
            &&& all_sent(d.pending)
            &&& d.outcome matches Wait::Ready(Ok(ev)) ==> ev <= u8::MAX && is_sent_event(ev as u8)
                && hits(ev as u8, mask)
        }),
{
    let queue = v.queues[address.0].events;
    let d = deliver(pending, queue, mask, indefinite);
    let queues = v.with_events(address, d.queue).queues;
    lemma_queue_in_order(v, address.0);
    law_wait_gives_what_was_asked(pending, queue, mask, indefinite, d.outcome->Ready_0->Ok_0);
    assert(queues.dom() =~= v.queues.dom());
    assert forall|a: usize| #[trigger] queues.contains_key(a) implies all_queued(
        queues[a].events,
    ) by {
        lemma_queue_in_order(v, a);
    }
    lemma_queues_changed_wf(v, queues);
}

/// Every step keeps the enclave in order.
pub proof fn law_step_keeps_order<T, S, L>(v: EnclaveView<T, S, L>, step: Step<T, S, L>)
    requires
        v.wf(),
        v.allows(step),
    ensures
        v.after(step).wf(),
{
    let w = v.after(step);
    match step {
        Step::Abort => {
            lemma_sent_to_all_wf(v, ABORT_EVENT);
            assert(w.pool() == v.sent_to_all(ABORT_EVENT).pool());
        },
        Step::Exit { .. } => {
            lemma_sent_to_all_wf(v, ABORT_EVENT);
            assert(w.pool() == v.sent_to_all(ABORT_EVENT).pool());
        },
        Step::Send { event_set, target } => {
            if v.send_result(event_set, target) is Ok {
                lemma_sent_event(event_set);
                match target {
                    Some(a) => lemma_sent_to_wf(v, a, event_set as u8),
                    None => lemma_sent_to_all_wf(v, event_set as u8),
                }
            }
        },
        Step::Receive { address, pending, mask, indefinite } => {
            lemma_deliver_keeps_order(v, address, pending, mask, indefinite);
        },
        Step::Retire { address } => {
            lemma_retired_wf(v, address);
        },
        Step::Launch => {
            assert forall|i: int| 0 <= i < w.pool().len() implies w.pool()[i] == v.pool()[i] by {}
        },
        Step::Stop => {
            let u = v.pool_retired();
            assert(u.pool() =~= Seq::empty());
            assert forall|a: usize, i: int|
                u.queues.contains_key(a) && 0 <= i < u.queues[a].events.len() implies is_queued_event(
                #[trigger] u.queues[a].events[i],
            ) by {
                assert(u.queues[a].events[i] == v.queues[a].events[i]);
            }
            lemma_sent_to_all_wf(u, ABORT_EVENT);
            assert(w.pool() == u.sent_to_all(ABORT_EVENT).pool());
        },
        Step::Take => {
            assert forall|i: int| 0 <= i < w.pool().len() implies w.pool()[i] == v.pool()[i + 1] by {}
        },
        Step::Put { tcs } => {
            assert forall|i: int| 0 <= i < v.pool().len() implies w.pool()[i] == v.pool()[i]
                && v.pool()[i].address != tcs.address by {
                if v.pool()[i].address == tcs.address {
                    assert(v.in_pool(tcs.address));
                }
            }
        },
        Step::KeepReason { .. } => {
            assert(w.pool() == v.pool());
        },
        Step::TakeReason => {
            assert(w.pool() == v.pool());
        },
        Step::Open { desc } => {
            assert(w.pool() == v.pool());
        },
        Step::Close { fd } => {
            assert(w.pool() == v.pool());
        },
    }
}

/// An enclave that was in order is in order after any number of steps.
pub proof fn law_always_in_order<T, S, L>(v: EnclaveView<T, S, L>, steps: Seq<Step<T, S, L>>)
    requires
        v.wf(),
        v.allows_all(steps),
    ensures
        v.after_all(steps).wf(),
    decreases steps.len(),
{
    if steps.len() > 0 {
        law_always_in_order(v, steps.drop_last());
        law_step_keeps_order(v.after_all(steps.drop_last()), steps.last());
    }
}

/// What no step takes back: that the enclave is going down, whether a thread ended it without a
/// panic, which descriptors have been given out, which TCSs there are and which of them have been
/// given up, and how the enclave is run.
pub open spec fn no_step_back<T, S, L>(v: EnclaveView<T, S, L>, w: EnclaveView<T, S, L>) -> bool {
    &&& v.exiting ==> w.exiting
    &&& v.clean_exit() ==> w.clean_exit()
    &&& v.last_fd <= w.last_fd
    &&& forall|fd: Fd|
        fd <= v.last_fd && !v.fds.contains_key(fd) ==> !#[trigger] w.fds.contains_key(fd)
    &&& w.queues.dom() == v.queues.dom()
    &&& forall|a: usize|
        v.queues.contains_key(a) && !v.queues[a].connected ==> !(
        #[trigger] w.queues[a]).connected
    &&& v.kind is Command <==> w.kind is Command
}

/// Nothing of that is taken back by any number of steps. In particular, a descriptor that has been
/// closed never stands for anything again, a TCS that has been given up never receives again, and
/// an enclave that is going down stays so.
pub proof fn law_no_step_back<T, S, L>(v: EnclaveView<T, S, L>, steps: Seq<Step<T, S, L>>)
    requires
        v.wf(),
        v.allows_all(steps),
    ensures
        no_step_back(v, v.after_all(steps)),
    decreases steps.len(),
{
    if steps.len() > 0 {
        let u = v.after_all(steps.drop_last());
        let w = u.after(steps.last());
        law_no_step_back(v, steps.drop_last());
        law_always_in_order(v, steps.drop_last());
        assert(no_step_back(u, w)) by {
            assert(w.queues.dom() =~= u.queues.dom());
        }
        assert forall|fd: Fd| fd <= v.last_fd && !v.fds.contains_key(fd) implies !(
        #[trigger] w.fds.contains_key(fd)) by {
            assert(!u.fds.contains_key(fd));
        }
        assert forall|a: usize| v.queues.contains_key(a) && !v.queues[a].connected implies !(
        #[trigger] w.queues[a]).connected by {
            assert(!u.queues[a].connected);
        }
    }
}

/// The descriptor that a step gives out, after any number of steps, is none that was given out
/// before.
pub proof fn law_new_descriptor_is_new<T, S, L>(
    v: EnclaveView<T, S, L>,
    before: Seq<Step<T, S, L>>,
    fd: Fd,
)
    requires
        v.wf(),
        v.allows_all(before),
        v.fds.contains_key(fd),
    ensures
        v.after_all(before).last_fd + 1 > fd,
{
    law_no_step_back(v, before);
}

/// Whether the step takes events off the queue of the TCS at `address`.
pub open spec fn receives_at<T, S, L>(step: Step<T, S, L>, address: TcsAddress) -> bool {
    step matches Step::Receive { address: a, .. } && a == address
}

/// An event on the queue of a TCS stays there, and in its place, until the thread on that TCS
/// takes it: what others do, in any number of steps, can only add to the queue.
pub proof fn law_queue_waits_for_its_thread<T, S, L>(
    v: EnclaveView<T, S, L>,
    steps: Seq<Step<T, S, L>>,
    address: TcsAddress,
)
    requires
        v.wf(),
        v.allows_all(steps),
        v.queues.contains_key(address.0),
        forall|i: int| 0 <= i < steps.len() ==> !receives_at(#[trigger] steps[i], address),
    ensures
        v.queues[address.0].events.is_prefix_of(v.after_all(steps).queues[address.0].events),
    decreases steps.len(),
{
    if steps.len() > 0 {
        let front = steps.drop_last();
        let u = v.after_all(front);
        let w = u.after(steps.last());
        assert forall|i: int| 0 <= i < front.len() implies !receives_at(#[trigger] front[i], address) by {
            assert(front[i] == steps[i]);
        }
        law_queue_waits_for_its_thread(v, front, address);
        law_no_step_back(v, front);
        assert(!receives_at(steps[steps.len() - 1], address));
        let q = v.queues[address.0].events;
        let uq = u.queues[address.0].events;
        let wq = w.queues[address.0].events;
        assert(uq.is_prefix_of(wq)) by {
            assert(wq.len() >= uq.len() && wq.take(uq.len() as int) =~= uq);
        }
        assert(wq.take(q.len() as int) =~= uq.take(q.len() as int));
    }
}

/// Whether the step ends the ownership of the TCS at `address`.
pub open spec fn gives_away<T, S, L>(step: Step<T, S, L>, address: TcsAddress) -> bool {
    match step {
        Step::Retire { address: a } => a == address,
        Step::Put { tcs } => tcs.address == address,
        _ => false,
    }
}

/// A TCS that a thread owns stays its own, in any number of steps, until it is given up or handed
/// back.
pub proof fn law_owned_tcs_stays<T, S, L>(
    v: EnclaveView<T, S, L>,
    steps: Seq<Step<T, S, L>>,
    own: TcsAddress,
)
    requires
        v.wf(),
        v.allows_all(steps),
        v.checked_out(own),
        forall|i: int| 0 <= i < steps.len() ==> !gives_away(#[trigger] steps[i], own),
    ensures
        v.after_all(steps).checked_out(own),
    decreases steps.len(),
{
    if steps.len() > 0 {
        let front = steps.drop_last();
        let u = v.after_all(front);
        let w = u.after(steps.last());
        assert forall|i: int| 0 <= i < front.len() implies !gives_away(#[trigger] front[i], own) by {
            assert(front[i] == steps[i]);
        }
        law_owned_tcs_stays(v, front, own);
        assert(!gives_away(steps[steps.len() - 1], own));
        assert(TcsAddress(own.0) == own);
        assert(w.queues.contains_key(own.0) && w.queues[own.0].connected);
        if w.in_pool(own) {
            let i = choose|i: int| 0 <= i < w.pool().len() && (#[trigger] w.pool()[i]).address == own;
            match steps.last() {
                Step::Take => {
                    assert(u.pool()[i + 1].address == own);
                },
                Step::Put { tcs } => {
                    if i < u.pool().len() {
                        assert(u.pool()[i].address == own);
                    }
                },
                _ => {
                    assert(u.pool()[i].address == own);
                },
            }
        }
    }
}

/// The abort of the enclave cannot be missed: whatever the other threads do in between, in any
/// number of steps, the next wait of a thread that was alive does not leave it waiting. It gets an
/// event or learns of the abort.
pub proof fn law_abort_is_not_missed<T, S, L>(
    v: EnclaveView<T, S, L>,
    steps: Seq<Step<T, S, L>>,
    address: TcsAddress,
    pending: Seq<u8>,
    mask: u8,
    indefinite: bool,
)
    requires
        v.wf(),
        v.queues.contains_key(address.0),
        v.queues[address.0].connected,
        v.aborted().allows_all(steps),
        forall|i: int| 0 <= i < steps.len() ==> !receives_at(#[trigger] steps[i], address),
    ensures
        ({
            let queue = v.aborted().after_all(steps).queues[address.0].events;
            let outcome = deliver(pending, queue, mask, indefinite).outcome;
            ||| outcome matches Wait::Ready(Ok(_))
            ||| outcome == Wait::Ready(Err(ErrorKind::Other))
        }),
{
    let w = v.aborted();
    let queue = w.after_all(steps).queues[address.0].events;
    let n = v.queues[address.0].events.len() as int;
    law_step_keeps_order(v, Step::Abort);
    law_queue_waits_for_its_thread(w, steps, address);
    assert(w.queues[address.0].events[n] == ABORT_EVENT);
    assert(queue[n] == ABORT_EVENT);
    assert(8u8 & 8u8 == 8u8) by (bit_vector);
    law_abort_ends_waits(pending, queue, mask, indefinite, n);
}

/// A TCS of a program that has once left the free ones never comes back to them, in any number of
/// steps, so that it is launched at most once.
pub proof fn law_launched_tcs_never_returns<T, S, L>(
    v: EnclaveView<T, S, L>,
    steps: Seq<Step<T, S, L>>,
    address: TcsAddress,
)
    requires
        v.wf(),
        v.allows_all(steps),
        v.kind is Command,
        !v.in_pool(address),
    ensures
        !v.after_all(steps).in_pool(address),
    decreases steps.len(),
{
    if steps.len() > 0 {
        let u = v.after_all(steps.drop_last());
        let w = u.after(steps.last());
        law_launched_tcs_never_returns(v, steps.drop_last(), address);
        law_no_step_back(v, steps.drop_last());
        assert forall|i: int| 0 <= i < w.pool().len() implies (#[trigger] w.pool()[i]).address
            != address by {
            assert(w.pool()[i] == u.pool()[i]);
        }
    }
}

/// Whether the step sends the enclave down.
pub open spec fn sends_down<T, S, L>(step: Step<T, S, L>) -> bool {
    step is Abort || step is Exit || step is Stop
}

/// An enclave does not go down by itself: if it is going down after some steps and was not before,
/// one of the steps has sent it down.
pub proof fn law_goes_down_only_when_sent<T, S, L>(
    v: EnclaveView<T, S, L>,
    steps: Seq<Step<T, S, L>>,
)
    requires
        !v.exiting,
        forall|i: int| 0 <= i < steps.len() ==> !sends_down(#[trigger] steps[i]),
    ensures
        !v.after_all(steps).exiting,
    decreases steps.len(),
{
    if steps.len() > 0 {
        let front = steps.drop_last();
        assert forall|i: int| 0 <= i < front.len() implies !sends_down(#[trigger] front[i]) by {
            assert(front[i] == steps[i]);
        }
        law_goes_down_only_when_sent(v, front);
        assert(!sends_down(steps[steps.len() - 1]));
    }
}

/// Once an enclave is going down, no thread is launched any more, however many steps follow.
pub proof fn law_no_launch_once_going_down<T, S, L>(
    v: EnclaveView<T, S, L>,
    steps: Seq<Step<T, S, L>>,
    i: int,
)
    requires
        v.wf(),
        v.exiting,
        v.allows_all(steps),
        0 <= i < steps.len(),
    ensures
        !(steps[i] is Launch),
    decreases steps.len(),
{
    if i == steps.len() - 1 {
        law_no_step_back(v, steps.drop_last());
    } else {
        law_no_launch_once_going_down(v, steps.drop_last(), i);
    }
}

/// Whether it is known why a program goes down: for the reason of a launched thread, or because a
/// thread ended it without a panic.
pub open spec fn end_known<T, S, L>(v: EnclaveView<T, S, L>) -> bool {
    v.primary_panic_reason() is Some || v.clean_exit()
}

/// Whether the step tells why a program goes down.
pub open spec fn tells_end<T, S, L>(step: Step<T, S, L>) -> bool {
    match step {
        Step::Exit { panic } => !panic,
        Step::KeepReason { abort } => is_primary(abort),
        _ => false,
    }
}

/// Whether a thread asks, in a panic, for the enclave to be destroyed.
pub open spec fn panics<T, S, L>(step: Step<T, S, L>) -> bool {
    step matches Step::Exit { panic } && panic
}

/// Whether the step ends a launched thread that panicked.
pub open spec fn ends_panicked<T, S, L>(step: Step<T, S, L>) -> bool {
    step matches Step::KeepReason { abort } && abort is Exit
}

/// The first reason that brings a program down stays the primary one, whatever other reasons
/// follow, until it is taken out.
pub proof fn law_primary_reason_stays<T, S, L>(
    v: EnclaveView<T, S, L>,
    steps: Seq<Step<T, S, L>>,
)
    requires
        v.primary_panic_reason() is Some,
        forall|i: int| 0 <= i < steps.len() ==> !(#[trigger] steps[i] is TakeReason),
    ensures
        v.after_all(steps).primary_panic_reason() == v.primary_panic_reason(),
    decreases steps.len(),
{
    if steps.len() > 0 {
        let front = steps.drop_last();
        assert forall|i: int| 0 <= i < front.len() implies !(#[trigger] front[i] is TakeReason) by {
            assert(front[i] == steps[i]);
        }
        law_primary_reason_stays(v, front);
        assert(!(steps[steps.len() - 1] is TakeReason));
    }
}

/// Once a step has told why a program goes down, it stays known.
proof fn lemma_end_stays_known<T, S, L>(v: EnclaveView<T, S, L>, steps: Seq<Step<T, S, L>>, i: int)
    requires
        v.wf(),
        v.kind is Command,
        v.allows_all(steps),
        0 <= i < steps.len(),
        tells_end(steps[i]),
        forall|j: int| 0 <= j < steps.len() ==> !(#[trigger] steps[j] is TakeReason),
    ensures
        end_known(v.after_all(steps)),
    decreases steps.len(),
{
    let front = steps.drop_last();
    law_no_step_back(v, front);
    if i < steps.len() - 1 {
        assert forall|j: int| 0 <= j < front.len() implies !(#[trigger] front[j] is TakeReason) by {
            assert(front[j] == steps[j]);
        }
        lemma_end_stays_known(v, front, i);
        assert(!(steps[steps.len() - 1] is TakeReason));
    }
}

/// A main thread that went down with another one is never left with just that. It learned, after
/// the first `seen` steps, that the enclave was going down, which its own end cannot have caused.
/// If a thread had panicked by then, one that panicked has ended since, for the main thread waits
/// for all of them. Then the program is reported to have ended well, after a clean exit, or with
/// the reason of a launched thread.
pub proof fn law_end_is_known<T, S, L>(
    v: EnclaveView<T, S, L>,
    steps: Seq<Step<T, S, L>>,
    seen: int,
)
    requires
        v.wf(),
        v.kind is Command,
        !v.exiting,
        v.allows_all(steps),
        0 <= seen <= steps.len(),
        v.after_all(steps.take(seen)).exiting,
        forall|i: int|
            0 <= i < seen ==> !(#[trigger] steps[i] is Abort) && !(steps[i] is Stop),
        forall|i: int| 0 <= i < steps.len() ==> !(#[trigger] steps[i] is TakeReason),
        (exists|i: int| 0 <= i < seen && panics(#[trigger] steps[i])) ==> exists|j: int|
            0 <= j < steps.len() && ends_panicked(#[trigger] steps[j]),
    ensures
        ({
            let w = v.after_all(steps);
            let entered: Entered<T> = Err(EnclaveAbort::Secondary);
            match main_reason(entered, w.primary_panic_reason(), w.clean_exit()) {
                Some(reason) => is_primary(reason) && w.primary_panic_reason() == Some(reason),
                None => w.clean_exit(),
            }
        }),
{
    let before = steps.take(seen);
    if forall|i: int| 0 <= i < before.len() ==> !sends_down(#[trigger] before[i]) {
        law_goes_down_only_when_sent(v, before);
    }
    let i = choose|i: int| 0 <= i < before.len() && sends_down(#[trigger] before[i]);
    assert(before[i] == steps[i]);
    if tells_end(steps[i]) {
        lemma_end_stays_known(v, steps, i);
    } else {
        assert(panics(steps[i]));
        let j = choose|j: int| 0 <= j < steps.len() && ends_panicked(#[trigger] steps[j]);
        lemma_end_stays_known(v, steps, j);
    }
    law_always_in_order(v, steps);
}

/// A thread that sends an event `n` times in a row puts it `n` times at the end of the queue, whatever
/// was on it before, if somebody owns the TCS.
pub proof fn law_each_send_counts<T, S, L>(
    v: EnclaveView<T, S, L>,
    event_set: u64,
    target: Option<TcsAddress>,
    a: usize,
    n: nat,
)
    requires
        v.send_result(event_set, target) is Ok,
        v.queues.contains_key(a),
        v.queues[a].connected,
        target is None || target == Some(TcsAddress(a)),
    ensures
        ({
            let sends = Seq::new(n, |i: int| Step::<T, S, L>::Send { event_set, target });
            let w = v.after_all(sends);
            &&& w.send_result(event_set, target) is Ok
            &&& w.queues.dom() == v.queues.dom()
            &&& w.queues[a].connected
            &&& w.queues[a].events == v.queues[a].events + Seq::new(n, |i: int| event_set as u8)
        }),
    decreases n,
{
    let sends = Seq::new(n, |i: int| Step::<T, S, L>::Send { event_set, target });
    let copies = Seq::new(n, |i: int| event_set as u8);
    if n == 0 {
        assert(v.queues[a].events + copies =~= v.queues[a].events);
    } else {
        let m = (n - 1) as nat;
        let before = Seq::new(m, |i: int| Step::<T, S, L>::Send { event_set, target });
        law_each_send_counts(v, event_set, target, a, m);
        let u = v.after_all(before);
        assert(sends.drop_last() =~= before);
        assert(sends.last() == Step::<T, S, L>::Send { event_set, target });
        law_send_appends(u, event_set, target, a);
        law_refused_sends(v, event_set, target);
        law_refused_sends(u, event_set, target);
        let w = u.after_send(event_set, target);
        law_refused_sends(w, event_set, target);
        assert(u.queues[a].events.push(event_set as u8) =~= v.queues[a].events + copies);
    }
}

} // verus!
