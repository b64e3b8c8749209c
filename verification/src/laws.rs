//! What holds of the library as a whole.
use crate::abi::{
    Fd, EV_ABORT, EV_ALL, EV_RETURNQ_NOT_EMPTY, EV_UNPARK, EV_USERCALLQ_NOT_FULL,
};
use crate::abort::{EnclaveAbort, EnclaveError, EnclavePanic};
use crate::error::ErrorKind;
use crate::event::{
    deliver, first_hit, hits, is_queued_event, is_sent_event, lemma_first_hit,
    lemma_first_hit_unique, lemma_sent_event, Wait, ABORT_EVENT,
};
use crate::fd::FileDesc;
use crate::outcome::{
    library_error, main_error, main_panicking, main_reason, returned, stopped_for, Entered, Left,
};
use crate::running::EnclaveEntry;
use crate::tcs::TcsAddress;
use crate::view::{is_primary, EnclaveView};
use vstd::prelude::*;

verus! {

/// The runner's own event is none of those that an enclave may name, and all of them fit on a
/// queue.
pub proof fn law_abort_event_is_apart()
    ensures
        EV_ALL == EV_USERCALLQ_NOT_FULL | EV_RETURNQ_NOT_EMPTY | EV_UNPARK,
        EV_ALL & EV_ABORT == 0,
        EV_ALL | EV_ABORT <= u8::MAX,
        ABORT_EVENT as u64 == EV_ABORT,
        forall|ev: u8| #[trigger] is_sent_event(ev) ==> !hits(ev, ABORT_EVENT),
{
    assert(0b0111u64 == 0b0001u64 | 0b0010u64 | 0b0100u64) by (bit_vector);
    assert(0b0111u64 & 0b1000u64 == 0) by (bit_vector);
    assert(0b0111u64 | 0b1000u64 <= 255) by (bit_vector);
    assert forall|ev: u8| #[trigger] is_sent_event(ev) implies !hits(ev, ABORT_EVENT) by {
        assert(ev & !0b0111u8 == 0 ==> ev & 0b1000u8 == 0) by (bit_vector);
    }
}

/// The events of a thread that were sent by the enclave.
pub open spec fn all_sent(events: Seq<u8>) -> bool {
    forall|i: int| 0 <= i < events.len() ==> is_sent_event(#[trigger] events[i])
}

/// The events of a thread that may stand on its queue.
pub open spec fn all_queued(events: Seq<u8>) -> bool {
    forall|i: int| 0 <= i < events.len() ==> is_queued_event(#[trigger] events[i])
}

/// That some events are kept aside cannot be observed: a wait treats the events kept aside and
/// those on the queue as one queue. It takes out the first event that it was waiting for or
/// that aborts the enclave, and loses and reorders nothing.
pub proof fn law_wait_sees_one_queue(
    pending: Seq<u8>,
    queue: Seq<u8>,
    mask: u8,
    indefinite: bool,
)
    requires
        all_sent(pending),
    ensures
        ({
            let all = pending + queue;
            let k = first_hit(all, mask | ABORT_EVENT);
            let d = deliver(pending, queue, mask, indefinite);
            &&& 0 <= k <= all.len()
            &&& d.pending + d.queue == if k < all.len() {
                all.remove(k)
            } else {
                all
            }
            &&& d.outcome == if k == all.len() {
                if indefinite {
                    Wait::Blocked
                } else {
                    Wait::Ready(Err(ErrorKind::WouldBlock))
                }
            } else if hits(all[k], ABORT_EVENT) {
                Wait::Ready(Err(ErrorKind::Other))
            } else {
                Wait::Ready(Ok(all[k] as u64))
            }
        }),
{
    let all = pending + queue;
    let both = mask | ABORT_EVENT;
    let i = first_hit(pending, mask);
    let j = first_hit(queue, both);
    let d = deliver(pending, queue, mask, indefinite);
    lemma_first_hit(pending, mask);
    lemma_first_hit(queue, both);
    assert forall|n: int| 0 <= n < pending.len() implies (hits(#[trigger] pending[n], both) <==> hits(
        pending[n],
        mask,
    )) && !hits(pending[n], ABORT_EVENT) by {
        let ev = pending[n];
        law_abort_event_is_apart();
        lemma_hits_either(ev, mask);
        assert(is_sent_event(ev));
    }
    if i < pending.len() {
        assert forall|n: int| 0 <= n < i implies !hits(#[trigger] all[n], both) by {
            assert(all[n] == pending[n]);
        }
        assert(all[i] == pending[i]);
        lemma_first_hit_unique(all, both, i);
        assert(d.pending + d.queue =~= all.remove(i));
    } else {
        let k = pending.len() + j;
        assert forall|n: int| 0 <= n < k implies !hits(#[trigger] all[n], both) by {
            if n < pending.len() {
                assert(all[n] == pending[n]);
            } else {
                assert(all[n] == queue[n - pending.len()]);
            }
        }
        if j < queue.len() {
            assert(all[k] == queue[j]);
            lemma_first_hit_unique(all, both, k);
            assert(d.pending + d.queue =~= all.remove(k));
        } else {
            lemma_first_hit_unique(all, both, k);
            assert(d.pending + d.queue =~= all);
        }
    }
}

/// An event has a bit of the mask or aborts the enclave if it has a bit of the two together.
proof fn lemma_hits_either(ev: u8, mask: u8)
    ensures
        hits(ev, mask | ABORT_EVENT) <==> hits(ev, mask) || hits(ev, ABORT_EVENT),
{
    let abort = ABORT_EVENT;
    assert(ev & (mask | abort) != 0 <==> (ev & mask != 0 || ev & abort != 0)) by (bit_vector);
}

/// A wait that was blocked and is taken up again when `more` has come in ends as one that found
/// all of it at once.
pub proof fn law_blocked_wait_resumes(pending: Seq<u8>, queue: Seq<u8>, more: Seq<u8>, mask: u8)
    requires
        deliver(pending, queue, mask, true).outcome is Blocked,
    ensures
        ({
            let blocked = deliver(pending, queue, mask, true);
            deliver(blocked.pending, blocked.queue + more, mask, true) == deliver(
                pending,
                queue + more,
                mask,
                true,
            )
        }),
{
    let both = mask | ABORT_EVENT;
    let blocked = deliver(pending, queue, mask, true);
    let aside = pending + queue;
    let all = queue + more;
    lemma_first_hit(pending, mask);
    lemma_first_hit(queue, both);
    lemma_first_hit(more, both);
    assert(blocked.queue + more =~= more);
    assert forall|n: int| 0 <= n < aside.len() implies !hits(#[trigger] aside[n], mask) by {
        if n < pending.len() {
            assert(aside[n] == pending[n]);
        } else {
            assert(aside[n] == queue[n - pending.len()]);
            lemma_hits_either(aside[n], mask);
        }
    }
    lemma_first_hit_unique(aside, mask, aside.len() as int);
    let j = first_hit(more, both);
    assert forall|n: int| 0 <= n < queue.len() + j implies !hits(#[trigger] all[n], both) by {
        if n < queue.len() {
            assert(all[n] == queue[n]);
        } else {
            assert(all[n] == more[n - queue.len()]);
        }
    }
    if j < more.len() {
        assert(all[queue.len() + j] == more[j]);
    }
    lemma_first_hit_unique(all, both, queue.len() + j);
    let a = deliver(aside, more, mask, true);
    let b = deliver(pending, all, mask, true);
    assert(a.pending =~= b.pending);
    assert(a.queue =~= b.queue);
}

/// An event that a wait gives back was sent by the enclave and was waited for. The abort of the
/// enclave is never given back as an event. What is kept aside was sent by the enclave too.
pub proof fn law_wait_gives_what_was_asked(
    pending: Seq<u8>,
    queue: Seq<u8>,
    mask: u8,
    indefinite: bool,
    ev: u64,
)
    requires
        all_sent(pending),
        all_queued(queue),
    ensures
        ({
            let d = deliver(pending, queue, mask, indefinite);
            &&& d.outcome == Wait::Ready(Ok(ev)) ==> ev <= u8::MAX && is_sent_event(ev as u8)
                && hits(ev as u8, mask)
            &&& all_sent(d.pending)
            &&& all_queued(d.queue)
        }),
{
    let both = mask | ABORT_EVENT;
    let d = deliver(pending, queue, mask, indefinite);
    let j = first_hit(queue, both);
    lemma_first_hit(pending, mask);
    lemma_first_hit(queue, both);
    assert(0b1000u8 & 0b1000u8 == 0b1000u8) by (bit_vector);
    if j < queue.len() {
        lemma_hits_either(queue[j], mask);
        assert(is_queued_event(queue[j]));
    }
    assert forall|n: int| 0 <= n < d.pending.len() implies is_sent_event(#[trigger] d.pending[n]) by {
        if d.pending.len() >= pending.len() && n >= pending.len() {
            let e = queue[n - pending.len()];
            lemma_hits_either(e, mask);
            assert(is_queued_event(e));
        }
    }
    assert forall|n: int| 0 <= n < d.queue.len() implies is_queued_event(#[trigger] d.queue[n]) by {
        let shift = queue.len() - d.queue.len();
        assert(d.queue[n] == queue[n + shift]);
    }
}

/// A wait for no event ends with the abort of the enclave or not at all.
pub proof fn law_wait_for_nothing(pending: Seq<u8>, queue: Seq<u8>)
    requires
        all_sent(pending),
    ensures
        ({
            let d = deliver(pending, queue, 0, true);
            if exists|n: int| 0 <= n < queue.len() && hits(#[trigger] queue[n], ABORT_EVENT) {
                d.outcome == Wait::Ready(Err(ErrorKind::Other))
            } else {
                d.outcome is Blocked
            }
        }),
{
    let both = 0u8 | ABORT_EVENT;
    assert(0u8 | 0b1000u8 == 0b1000u8) by (bit_vector);
    lemma_first_hit(pending, 0);
    lemma_first_hit(queue, both);
    if first_hit(pending, 0) < pending.len() {
        let e = pending[first_hit(pending, 0)];
        assert(e & 0u8 == 0) by (bit_vector);
    }
}

/// Once the abort of the enclave is on its queue, a thread that waits is not left waiting: it
/// gets an event or learns of the abort.
pub proof fn law_abort_ends_waits(
    pending: Seq<u8>,
    queue: Seq<u8>,
    mask: u8,
    indefinite: bool,
    n: int,
)
    requires
        0 <= n < queue.len(),
        hits(queue[n], ABORT_EVENT),
    ensures
        ({
            let outcome = deliver(pending, queue, mask, indefinite).outcome;
            ||| outcome matches Wait::Ready(Ok(_))
            ||| outcome == Wait::Ready(Err(ErrorKind::Other))
        }),
{
    lemma_first_hit(pending, mask);
    lemma_first_hit(queue, mask | ABORT_EVENT);
    lemma_hits_either(queue[n], mask);
}

/// Telling an enclave to go down puts the abort on the queue of every thread that is alive, and
/// so ends whatever wait that thread makes next.
pub proof fn law_abort_reaches_all<T, S, L>(
    v: EnclaveView<T, S, L>,
    a: TcsAddress,
    pending: Seq<u8>,
    mask: u8,
    indefinite: bool,
)
    requires
        v.queues.contains_key(a.0),
        v.queues[a.0].connected,
    ensures
        v.aborted().exiting,
        v.aborted().queues[a.0].events == v.queues[a.0].events.push(ABORT_EVENT),
        ({
            let outcome = deliver(
                pending,
                v.aborted().queues[a.0].events,
                mask,
                indefinite,
            ).outcome;
            ||| outcome matches Wait::Ready(Ok(_))
            ||| outcome == Wait::Ready(Err(ErrorKind::Other))
        }),
{
    let queue = v.aborted().queues[a.0].events;
    assert(0b1000u8 & 0b1000u8 == 0b1000u8) by (bit_vector);
    assert(queue[queue.len() - 1] == ABORT_EVENT);
    law_abort_ends_waits(pending, queue, mask, indefinite, queue.len() - 1);
}

/// Sending to all is sending to each.
pub proof fn law_send_to_all_is_send_to_each<T, S, L>(
    v: EnclaveView<T, S, L>,
    a: TcsAddress,
    ev: u8,
)
    requires
        v.queues.contains_key(a.0),
    ensures
        v.sent_to_all(ev).queues.dom() == v.queues.dom(),
        v.sent_to_all(ev).queues[a.0] == v.sent_to(a, ev).queues[a.0],
{
    assert(v.sent_to_all(ev).queues.dom() =~= v.queues.dom());
}

/// What one thread sends, another receives: if nothing that came before ends its wait, the wait
/// of a thread that is alive gives back the events that were sent to it, or to all.
pub proof fn law_sent_event_is_received<T, S, L>(
    v: EnclaveView<T, S, L>,
    event_set: u64,
    target: Option<TcsAddress>,
    receiver: TcsAddress,
    pending: Seq<u8>,
    mask: u8,
    indefinite: bool,
)
    requires
        v.send_result(event_set, target) is Ok,
        target is None || target == Some(receiver),
        v.queues.contains_key(receiver.0),
        v.queues[receiver.0].connected,
        hits(event_set as u8, mask),
        forall|n: int| 0 <= n < pending.len() ==> !hits(#[trigger] pending[n], mask),
        forall|n: int|
            0 <= n < v.queues[receiver.0].events.len() ==> !hits(
                #[trigger] v.queues[receiver.0].events[n],
                mask | ABORT_EVENT,
            ),
    ensures
        deliver(
            pending,
            v.after_send(event_set, target).queues[receiver.0].events,
            mask,
            indefinite,
        ).outcome == Wait::Ready(Ok(event_set)),
{
    let before = v.queues[receiver.0].events;
    let ev = event_set as u8;
    let queue = v.after_send(event_set, target).queues[receiver.0].events;
    lemma_sent_event(event_set);
    law_abort_event_is_apart();
    assert(queue =~= before.push(ev));
    assert(is_sent_event(ev));
    lemma_hits_either(ev, mask);
    lemma_first_hit_unique(pending, mask, pending.len() as int);
    assert forall|n: int| 0 <= n < before.len() implies !hits(
        #[trigger] queue[n],
        mask | ABORT_EVENT,
    ) by {
        assert(queue[n] == before[n]);
    }
    lemma_first_hit_unique(queue, mask | ABORT_EVENT, before.len() as int);
}

/// Events come out in the order in which they were sent: of two that a thread waits for, the
/// first wait gives back the one that was sent first, and the second wait the other one.
pub proof fn law_first_sent_first_received(
    pending: Seq<u8>,
    queue: Seq<u8>,
    first: u8,
    second: u8,
    mask: u8,
)
    requires
        is_sent_event(first),
        is_sent_event(second),
        hits(first, mask),
        hits(second, mask),
        forall|n: int| 0 <= n < pending.len() ==> !hits(#[trigger] pending[n], mask),
        forall|n: int| 0 <= n < queue.len() ==> !hits(#[trigger] queue[n], mask | ABORT_EVENT),
    ensures
        ({
            let one = deliver(pending, queue.push(first).push(second), mask, true);
            let two = deliver(one.pending, one.queue, mask, true);
            &&& one.outcome == Wait::Ready(Ok(first as u64))
            &&& two.outcome == Wait::Ready(Ok(second as u64))
            &&& two.pending == pending + queue
            &&& two.queue == Seq::<u8>::empty()
        }),
{
    let both = mask | ABORT_EVENT;
    let all = queue.push(first).push(second);
    law_abort_event_is_apart();
    lemma_hits_either(first, mask);
    lemma_hits_either(second, mask);
    lemma_first_hit_unique(pending, mask, pending.len() as int);
    assert forall|n: int| 0 <= n < queue.len() implies !hits(#[trigger] all[n], both) by {
        assert(all[n] == queue[n]);
    }
    assert(all[queue.len() as int] == first);
    lemma_first_hit_unique(all, both, queue.len() as int);
    let one = deliver(pending, all, mask, true);
    assert(one.pending =~= pending + queue);
    assert(one.queue =~= seq![second]);
    assert forall|n: int| 0 <= n < one.pending.len() implies !hits(#[trigger] one.pending[n], mask) by {
        if n >= pending.len() {
            assert(one.pending[n] == queue[n - pending.len()]);
            lemma_hits_either(queue[n - pending.len()], mask);
        }
    }
    lemma_first_hit_unique(one.pending, mask, one.pending.len() as int);
    lemma_first_hit_unique(one.queue, both, 0);
    let two = deliver(one.pending, one.queue, mask, true);
    assert(two.pending =~= pending + queue);
    assert(two.queue =~= Seq::<u8>::empty());
}

/// What is sent to a TCS that has been given up is lost, be it sent to that one or to all.
pub proof fn law_retired_tcs_receives_nothing<T, S, L>(
    v: EnclaveView<T, S, L>,
    a: TcsAddress,
    ev: u8,
)
    requires
        v.queues.contains_key(a.0),
    ensures
        v.retired(a).sent_to(a, ev) == v.retired(a),
        v.retired(a).sent_to_all(ev).queues[a.0] == v.retired(a).queues[a.0],
{
    assert(v.retired(a).sent_to(a, ev).queues =~= v.retired(a).queues);
}

/// A new descriptor stands for what it was opened for; it was not in use, and the others still
/// stand for what they stood for. Closing it again leaves the descriptors as they were.
pub proof fn law_open_and_close<T, S, L>(v: EnclaveView<T, S, L>, desc: FileDesc<S, L>, other: Fd)
    requires
        v.wf(),
        v.last_fd < usize::MAX,
    ensures
        ({
            let fd = (v.last_fd + 1) as Fd;
            let w = v.with_new_fd(desc);
            &&& !v.fds.contains_key(fd)
            &&& w.fds.contains_key(fd)
            &&& w.fds[fd] == desc
            &&& other != fd ==> {
                &&& w.fds.contains_key(other) <==> v.fds.contains_key(other)
                &&& v.fds.contains_key(other) ==> w.fds[other] == v.fds[other]
            }
            &&& w.without_fd(fd).fds == v.fds
        }),
{
    let fd = (v.last_fd + 1) as Fd;
    assert(v.with_new_fd(desc).without_fd(fd).fds =~= v.fds);
}

/// A program launches each of its threads at most once: a launched TCS is no longer free, and the
/// number of launched threads and of those still free adds up to the same as before.
pub proof fn law_launch_once<T, S, L>(v: EnclaveView<T, S, L>)
    requires
        v.wf(),
        v.kind is Command,
        v.pool().len() > 0,
    ensures
        !v.launched().in_pool(v.pool().last().address),
        v.launched().checked_out(v.pool().last().address),
        v.launched().pool().len() + 1 == v.pool().len(),
        v.launched().kind->running_secondary_threads == v.kind->running_secondary_threads + 1,
{
    let w = v.launched();
    let last = v.pool().len() - 1;
    assert forall|i: int| 0 <= i < w.pool().len() implies (#[trigger] w.pool()[i]).address
        != v.pool()[last].address by {
        assert(w.pool()[i] == v.pool()[i]);
    }
}

/// When the main thread is done no TCS is free, so no thread can be launched any more.
pub proof fn law_no_launch_after_main<T, S, L>(v: EnclaveView<T, S, L>)
    requires
        v.kind is Command,
    ensures
        v.pool_retired().aborted().kind is Command,
        v.pool_retired().aborted().pool().len() == 0,
        v.pool_retired().aborted().exiting,
{
}

/// A call into a library that went well leaves the same TCSs free, the one that was used last.
pub proof fn law_library_call_keeps_the_pool<T, S, L>(v: EnclaveView<T, S, L>)
    requires
        v.wf(),
        v.kind is Library,
        v.pool().len() > 0,
    ensures
        ({
            let taken = v.with_pool(v.pool().drop_first());
            let back = taken.with_pool(taken.pool().push(v.pool()[0]));
            &&& taken.checked_out(v.pool()[0].address)
            &&& back.pool().to_multiset() == v.pool().to_multiset()
            &&& back.pool().last() == v.pool()[0]
            &&& back.queues == v.queues
            &&& back.fds == v.fds
        }),
{
    let taken = v.with_pool(v.pool().drop_first());
    assert forall|i: int| 0 <= i < taken.pool().len() implies (#[trigger] taken.pool()[i]).address
        != v.pool()[0].address by {
        assert(taken.pool()[i] == v.pool()[i + 1]);
    }
    let rest = v.pool().drop_first();
    let first = v.pool()[0];
    assert(v.pool() =~= seq![first] + rest);
    assert(rest.push(first) =~= rest + seq![first]);
    vstd::seq_lib::lemma_multiset_commutative(seq![first], rest);
    vstd::seq_lib::lemma_multiset_commutative(rest, seq![first]);
}

/// A program ends well exactly if its main thread exits without a panic: its main entry point
/// must not return.
pub proof fn law_main_must_exit(left: Left)
    ensures
        returned(EnclaveEntry::ExecutableMain, left) is Some <==> left == Err::<
            (u64, u64),
            EnclaveAbort<bool>,
        >(EnclaveAbort::Exit { panic: false }),
{
}

/// A main thread that went down for a reason of its own is reported with that reason, whatever
/// the other threads say. Else the reason of another thread, if there is one, is the real one. If
/// there is none and the main thread went down with one that exited cleanly, nothing has failed.
pub proof fn law_main_reason<T>(
    entered: Entered<T>,
    primary: Option<EnclaveAbort<EnclavePanic>>,
    clean_exit: bool,
)
    ensures
        main_panicking(entered) ==> main_reason(entered, primary, clean_exit) == Some(
            entered->Err_0,
        ),
        !main_panicking(entered) && primary is Some ==> main_reason(entered, primary, clean_exit)
            == primary,
        entered is Ok && primary is None ==> main_reason(entered, primary, clean_exit) is None,
        entered matches Err(EnclaveAbort::Secondary) && primary is None && clean_exit
            ==> main_reason(entered, primary, clean_exit) is None,
{
}

/// The first launched thread with a reason that brings the program down gives the reason that is
/// reported of a main thread that went down with it.
pub proof fn law_first_reason_is_reported<T, S, L>(
    v: EnclaveView<T, S, L>,
    abort: EnclaveAbort<EnclavePanic>,
)
    requires
        v.kind is Command,
        v.primary_panic_reason() is None,
        is_primary(abort),
    ensures
        ({
            let w = v.reason_kept(abort);
            let entered: Entered<T> = Err(EnclaveAbort::Secondary);
            main_reason(entered, w.primary_panic_reason(), w.clean_exit()) == Some(abort)
        }),
{
}

/// Which event a wait takes, if one is kept aside that it waits for: the first one. The queue is not
/// looked at.
pub proof fn law_wait_takes_pending(
    pending: Seq<u8>,
    queue: Seq<u8>,
    mask: u8,
    indefinite: bool,
    i: int,
)
    requires
        0 <= i < pending.len(),
        pending[i] & mask != 0,
        forall|k: int| 0 <= k < i ==> #[trigger] pending[k] & mask == 0,
    ensures
        ({
            let d = deliver(pending, queue, mask, indefinite);
            &&& d.outcome == Wait::Ready(Ok(pending[i] as u64))
            &&& d.pending == pending.remove(i)
            &&& d.queue == queue
        }),
{
    assert forall|k: int| 0 <= k < i implies !hits(#[trigger] pending[k], mask) by {
        assert(pending[k] & mask == 0);
    }
    lemma_first_hit_unique(pending, mask, i);
}

/// Which event a wait takes, if none is kept aside that it waits for: the first one on the queue
/// that it waits for or that aborts the enclave. Those before it are kept aside, in their order. The
/// abort ends the wait with an error, even if the event is waited for.
pub proof fn law_wait_takes_from_queue(
    pending: Seq<u8>,
    queue: Seq<u8>,
    mask: u8,
    indefinite: bool,
    j: int,
)
    requires
        forall|k: int| 0 <= k < pending.len() ==> #[trigger] pending[k] & mask == 0,
        0 <= j < queue.len(),
        queue[j] & mask != 0 || queue[j] & 8 != 0,
        forall|k: int| 0 <= k < j ==> #[trigger] queue[k] & mask == 0 && queue[k] & 8 == 0,
    ensures
        ({
            let d = deliver(pending, queue, mask, indefinite);
            &&& queue[j] & 8 == 0 ==> d.outcome == Wait::Ready(Ok(queue[j] as u64))
            &&& queue[j] & 8 != 0 ==> d.outcome == Wait::Ready(Err(ErrorKind::Other))
            &&& d.pending == pending + queue.take(j)
            &&& d.queue == queue.skip(j + 1)
        }),
{
    assert forall|k: int| 0 <= k < pending.len() implies !hits(#[trigger] pending[k], mask) by {
        assert(pending[k] & mask == 0);
    }
    lemma_first_hit_unique(pending, mask, pending.len() as int);
    assert forall|k: int| 0 <= k < j implies !hits(#[trigger] queue[k], mask | ABORT_EVENT) by {
        assert(queue[k] & mask == 0 && queue[k] & 8 == 0);
        lemma_hits_either(queue[k], mask);
    }
    lemma_hits_either(queue[j], mask);
    lemma_first_hit_unique(queue, mask | ABORT_EVENT, j);
}

/// What a wait does if there is nothing for it: all events are kept aside, in their order. A wait
/// that may take long has to go on, and one that may not ends with an error.
pub proof fn law_wait_finds_nothing(
    pending: Seq<u8>,
    queue: Seq<u8>,
    mask: u8,
    indefinite: bool,
)
    requires
        forall|k: int| 0 <= k < pending.len() ==> #[trigger] pending[k] & mask == 0,
        forall|k: int| 0 <= k < queue.len() ==> #[trigger] queue[k] & mask == 0 && queue[k] & 8 == 0,
    ensures
        ({
            let d = deliver(pending, queue, mask, indefinite);
            &&& indefinite ==> d.outcome == Wait::Blocked
            &&& !indefinite ==> d.outcome == Wait::Ready(Err(ErrorKind::WouldBlock))
            &&& d.pending == pending + queue
            &&& d.queue.len() == 0
        }),
{
    assert forall|k: int| 0 <= k < pending.len() implies !hits(#[trigger] pending[k], mask) by {
        assert(pending[k] & mask == 0);
    }
    lemma_first_hit_unique(pending, mask, pending.len() as int);
    assert forall|k: int| 0 <= k < queue.len() implies !hits(
        #[trigger] queue[k],
        mask | ABORT_EVENT,
    ) by {
        assert(queue[k] & mask == 0 && queue[k] & 8 == 0);
        lemma_hits_either(queue[k], mask);
    }
    lemma_first_hit_unique(queue, mask | ABORT_EVENT, queue.len() as int);
}

/// An event that is on the queue several times is received as often: each wait takes one.
pub proof fn law_repeated_event_is_received(
    pending: Seq<u8>,
    ev: u8,
    n: nat,
    mask: u8,
    indefinite: bool,
)
    requires
        forall|k: int| 0 <= k < pending.len() ==> #[trigger] pending[k] & mask == 0,
        1 <= ev < 8,
        ev & mask != 0,
        n > 0,
    ensures
        ({
            let d = deliver(pending, Seq::new(n, |i: int| ev), mask, indefinite);
            &&& d.outcome == Wait::Ready(Ok(ev as u64))
            &&& d.pending == pending
            &&& d.queue == Seq::new((n - 1) as nat, |i: int| ev)
        }),
{
    let queue = Seq::new(n, |i: int| ev);
    assert(queue[0] == ev);
    assert(ev < 8 ==> ev & 8 == 0) by (bit_vector);
    law_wait_takes_from_queue(pending, queue, mask, indefinite, 0);
    assert(pending + queue.take(0) =~= pending);
    assert(queue.skip(1) =~= Seq::new((n - 1) as nat, |i: int| ev));
}

/// What a thread that left the enclave has returned. The entry points of a library and of the
/// launched threads return what they return. An exit without a panic counts as returning nothing,
/// at whatever entry point. Otherwise there is nothing that was returned.
pub proof fn law_what_is_returned(mode: EnclaveEntry, left: Left)
    ensures
        match left {
            Ok(r) => match mode {
                EnclaveEntry::ExecutableMain => returned(mode, left) is None,
                EnclaveEntry::ExecutableNonMain => returned(mode, left) == Some((r.0, r.1)),
                EnclaveEntry::Library { .. } => returned(mode, left) == Some((r.0, r.1)),
            },
            Err(EnclaveAbort::Exit { panic }) => {
                &&& panic ==> returned(mode, left) is None
                &&& !panic ==> returned(mode, left) == Some((0u64, 0u64))
            },
            Err(EnclaveAbort::Secondary) => returned(mode, left) is None,
            Err(EnclaveAbort::IndefiniteWait) => returned(mode, left) is None,
            Err(EnclaveAbort::InvalidUsercall(_)) => returned(mode, left) is None,
            Err(EnclaveAbort::MainReturned) => returned(mode, left) is None,
        },
{
}

/// Two threads that return different values at the entry point of a library, whatever the arguments
/// of the calls, are reported with different values.
pub proof fn law_returned_values_are_told_apart(
    mode: EnclaveEntry,
    mode2: EnclaveEntry,
    r: (u64, u64),
    r2: (u64, u64),
)
    requires
        mode is Library,
        mode2 is Library,
    ensures
        returned(mode, Ok(r)) == returned(mode2, Ok(r2)) <==> r == r2,
{
}

/// Why a thread that did not leave in good order is said to have stopped: for the reason it left
/// with, and if it returned, because it must not. A panic is told with an empty debug buffer.
pub proof fn law_why_a_thread_stopped(left: Left, abort: EnclaveAbort<EnclavePanic>)
    requires
        stopped_for(left, abort),
    ensures
        match left {
            Ok(_) => abort == EnclaveAbort::<EnclavePanic>::MainReturned,
            Err(EnclaveAbort::Exit { .. }) => abort matches EnclaveAbort::Exit { panic }
                && panic.debug_buffer@.len() == 1024 && forall|i: int|
                0 <= i < 1024 ==> #[trigger] panic.debug_buffer@[i] == 0,
            Err(EnclaveAbort::Secondary) => abort == EnclaveAbort::<EnclavePanic>::Secondary,
            Err(EnclaveAbort::IndefiniteWait) => abort == EnclaveAbort::<
                EnclavePanic,
            >::IndefiniteWait,
            Err(EnclaveAbort::InvalidUsercall(n)) => abort == EnclaveAbort::<
                EnclavePanic,
            >::InvalidUsercall(n),
            Err(EnclaveAbort::MainReturned) => abort == EnclaveAbort::<EnclavePanic>::MainReturned,
        },
{
}

/// For which reason a program is reported to have failed, in each case.
pub proof fn law_reported_reason<T>(
    entered: Entered<T>,
    primary: Option<EnclaveAbort<EnclavePanic>>,
    clean_exit: bool,
)
    ensures
        match entered {
            Ok(_) => main_reason(entered, primary, clean_exit) == primary,
            Err(EnclaveAbort::Exit { panic }) => main_reason(entered, primary, clean_exit) == Some(
                EnclaveAbort::Exit { panic },
            ),
            Err(EnclaveAbort::InvalidUsercall(n)) => main_reason(entered, primary, clean_exit)
                == Some(EnclaveAbort::<EnclavePanic>::InvalidUsercall(n)),
            Err(EnclaveAbort::MainReturned) => main_reason(entered, primary, clean_exit) == Some(
                EnclaveAbort::<EnclavePanic>::MainReturned,
            ),
            Err(EnclaveAbort::IndefiniteWait) => {
                &&& primary is Some ==> main_reason(entered, primary, clean_exit) == primary
                &&& primary is None ==> main_reason(entered, primary, clean_exit) == Some(
                    EnclaveAbort::<EnclavePanic>::IndefiniteWait,
                )
            },
            Err(EnclaveAbort::Secondary) => {
                &&& primary is Some ==> main_reason(entered, primary, clean_exit) == primary
                &&& primary is None && clean_exit ==> main_reason(entered, primary, clean_exit)
                    is None
                &&& primary is None && !clean_exit ==> main_reason(entered, primary, clean_exit)
                    == Some(EnclaveAbort::<EnclavePanic>::Secondary)
            },
        },
{
}

/// What a caller is told of each reason. A program and a library differ only in how they speak of a
/// thread that waits for ever.
pub proof fn law_told_errors(reason: EnclaveAbort<EnclavePanic>)
    ensures
        match reason {
            EnclaveAbort::Exit { panic } => main_error(reason) == EnclaveError::Panic(panic)
                && library_error(reason) == EnclaveError::Panic(panic),
            EnclaveAbort::IndefiniteWait => main_error(reason) == EnclaveError::AllThreadsWaiting
                && library_error(reason) == EnclaveError::ThreadWaiting,
            EnclaveAbort::InvalidUsercall(n) => main_error(reason) == EnclaveError::InvalidUsercall(
                n,
            ) && library_error(reason) == EnclaveError::InvalidUsercall(n),
            EnclaveAbort::MainReturned => main_error(reason) == EnclaveError::MainReturned,
            EnclaveAbort::Secondary => main_error(reason) == EnclaveError::OtherThreadAborted
                && library_error(reason) == EnclaveError::OtherThreadAborted,
        },
{
}

} // verus!
