//! Events: bit sets that one thread of an enclave sends to another.
//!
//! Each thread has a queue of events that have come in, and keeps aside, in the
//! order in which they came, those that it has taken off the queue while it was
//! waiting for others.
use crate::abi::{ev_returnq_not_empty, ev_unpark, ev_usercallq_not_full, EV_ALL};
use crate::error::ErrorKind;
use std::collections::VecDeque;
use vstd::prelude::*;

verus! {

/// `EV_ABORT` as an event on a queue.
pub const ABORT_EVENT: u8 = 0b1000;

/// Whether an enclave may name the events `set` in a usercall.
pub open spec fn valid_event_set(set: u64) -> bool {
    set & !EV_ALL == 0
}

/// Whether the event `ev` has a bit of `mask`.
pub open spec fn hits(ev: u8, mask: u8) -> bool {
    ev & mask != 0
}

/// Whether the event `ev` has the bit `b`.
pub open spec fn has_bit(ev: u8, b: u8) -> bool {
    (ev >> b) & 1 == 1
}

/// Whether `ev` is an event that an enclave can have sent.
pub open spec fn is_sent_event(ev: u8) -> bool {
    ev != 0 && ev & !0b0111u8 == 0
}

/// Whether `ev` may stand on the queue of a thread.
pub open spec fn is_queued_event(ev: u8) -> bool {
    is_sent_event(ev) || ev == ABORT_EVENT
}

/// The position of the first event of `s` that has a bit of `mask`, or the
/// length of `s` if there is none.
pub open spec fn first_hit(s: Seq<u8>, mask: u8) -> int
    decreases s.len(),
{
    if s.len() == 0 {
        0
    } else if hits(s[0], mask) {
        0
    } else {
        1 + first_hit(s.drop_first(), mask)
    }
}

/// The bits that some event of `s` has.
pub open spec fn event_union(s: Seq<u8>) -> u8
    decreases s.len(),
{
    if s.len() == 0 {
        0
    } else {
        event_union(s.drop_last()) | s.last()
    }
}

/// How a wait stands once the queue has been looked through.
#[derive(Clone, Copy, Debug, PartialEq, Eq)]
pub enum Wait {
    /// The wait is over.
    Ready(Result<u64, ErrorKind>),
    /// The thread has to sleep until its queue has something more, and then to
    /// wait again.
    Blocked,
}

/// What a wait leaves behind, and how it stands.
pub struct Delivery {
    /// The events that are kept aside.
    pub pending: Seq<u8>,
    /// The events that are still on the queue.
    pub queue: Seq<u8>,
    /// How the wait stands.
    pub outcome: Wait,
}

/// What a wait for `mask` does with the events `pending` kept aside and the
/// events `queue` on the queue. An event kept aside goes first. Else the queue is
/// taken off up to the first event that has a bit of the mask or aborts the
/// enclave, and what lies before that one is kept aside.
pub open spec fn deliver(pending: Seq<u8>, queue: Seq<u8>, mask: u8, indefinite: bool) -> Delivery {
    let i = first_hit(pending, mask);
    let j = first_hit(queue, mask | ABORT_EVENT);
    if i < pending.len() {
        Delivery {
            pending: pending.remove(i),
            queue: queue,
            outcome: Wait::Ready(Ok(pending[i] as u64)),
        }
    } else if j < queue.len() {
        Delivery {
            pending: pending + queue.take(j),
            queue: queue.skip(j + 1),
            outcome: if hits(queue[j], ABORT_EVENT) {
                Wait::Ready(Err(ErrorKind::Other))
            } else {
                Wait::Ready(Ok(queue[j] as u64))
            },
        }
    } else {
        Delivery {
            pending: pending + queue,
            queue: Seq::empty(),
            outcome: if indefinite {
                Wait::Blocked
            } else {
                Wait::Ready(Err(ErrorKind::WouldBlock))
            },
        }
    }
}

/// `first_hit` is a hit, or the end, and nothing before it is a hit.
pub proof fn lemma_first_hit(s: Seq<u8>, mask: u8)
    ensures
        0 <= first_hit(s, mask) <= s.len(),
        first_hit(s, mask) < s.len() ==> hits(s[first_hit(s, mask)], mask),
        forall|k: int| 0 <= k < first_hit(s, mask) ==> !hits(#[trigger] s[k], mask),
    decreases s.len(),
{
    if s.len() != 0 && !hits(s[0], mask) {
        let rest = s.drop_first();
        lemma_first_hit(rest, mask);
        assert forall|k: int| 0 <= k < first_hit(s, mask) implies !hits(#[trigger] s[k], mask) by {
            if k > 0 {
                assert(s[k] == rest[k - 1]);
            }
        }
    }
}

/// The first hit is the only position with that property.
pub proof fn lemma_first_hit_unique(s: Seq<u8>, mask: u8, i: int)
    requires
        0 <= i <= s.len(),
        i < s.len() ==> hits(s[i], mask),
        forall|k: int| 0 <= k < i ==> !hits(#[trigger] s[k], mask),
    ensures
        first_hit(s, mask) == i,
{
    lemma_first_hit(s, mask);
    let f = first_hit(s, mask);
    if f < i {
        assert(!hits(s[f], mask));
    }
    if i < f {
        assert(!hits(s[i], mask));
    }
}

/// The union of the events of `s` has a bit of `mask` exactly if an event does.
pub proof fn lemma_union_hits(s: Seq<u8>, mask: u8)
    ensures
        hits(event_union(s), mask) <==> exists|k: int| 0 <= k < s.len() && hits(#[trigger] s[k], mask),
    decreases s.len(),
{
    if s.len() == 0 {
        assert(0u8 & mask == 0) by (bit_vector);
    } else {
        let front = s.drop_last();
        let u = event_union(front);
        let l = s.last();
        lemma_union_hits(front, mask);
        assert((u | l) & mask != 0 <==> (u & mask != 0 || l & mask != 0)) by (bit_vector);
        if hits(u, mask) {
            let k = choose|k: int| 0 <= k < front.len() && hits(#[trigger] front[k], mask);
            assert(hits(s[k], mask));
        }
        if hits(l, mask) {
            assert(hits(s[s.len() - 1], mask));
        }
        if exists|k: int| 0 <= k < s.len() && hits(#[trigger] s[k], mask) {
            let k = choose|k: int| 0 <= k < s.len() && hits(#[trigger] s[k], mask);
            if k < front.len() {
                assert(hits(front[k], mask));
            }
        }
    }
}

/// The events of a usercall that names some are an event that can be sent.
pub proof fn lemma_sent_event(set: u64)
    requires
        valid_event_set(set),
        set != 0,
    ensures
        is_sent_event(set as u8),
        (set as u8) as u64 == set,
{
    assert(set & !0b0111u64 == 0 ==> (set as u8) & !0b0111u8 == 0) by (bit_vector);
    assert(set & !0b0111u64 == 0 ==> (set as u8) as u64 == set) by (bit_vector);
}

/// An enclave may name any events but those from bit 3 on. It can have sent those that it may name,
/// if it is at least one, and on a queue the abort of the enclave comes on top of them. An event has
/// a bit of a mask if there is a bit that both have.
pub proof fn law_event_sets(set: u64, ev: u8, mask: u8)
    ensures
        valid_event_set(set) <==> set < 8,
        is_sent_event(ev) <==> 1 <= ev < 8,
        is_queued_event(ev) <==> 1 <= ev <= 8,
        hits(ev, mask) <==> exists|b: u8| b < 8 && #[trigger] has_bit(ev, b) && has_bit(mask, b),
{
    assert(set & !0b0111u64 == 0 <==> set < 8) by (bit_vector);
    assert(ev & !0b0111u8 == 0 <==> ev < 8) by (bit_vector);
    if hits(ev, mask) {
        assert(ev & mask != 0 ==> {
            ||| (ev >> 0u8) & 1 == 1 && (mask >> 0u8) & 1 == 1
            ||| (ev >> 1u8) & 1 == 1 && (mask >> 1u8) & 1 == 1
            ||| (ev >> 2u8) & 1 == 1 && (mask >> 2u8) & 1 == 1
            ||| (ev >> 3u8) & 1 == 1 && (mask >> 3u8) & 1 == 1
            ||| (ev >> 4u8) & 1 == 1 && (mask >> 4u8) & 1 == 1
            ||| (ev >> 5u8) & 1 == 1 && (mask >> 5u8) & 1 == 1
            ||| (ev >> 6u8) & 1 == 1 && (mask >> 6u8) & 1 == 1
            ||| (ev >> 7u8) & 1 == 1 && (mask >> 7u8) & 1 == 1
        }) by (bit_vector);
        assert({
            ||| has_bit(ev, 0) && has_bit(mask, 0)
            ||| has_bit(ev, 1) && has_bit(mask, 1)
            ||| has_bit(ev, 2) && has_bit(mask, 2)
            ||| has_bit(ev, 3) && has_bit(mask, 3)
            ||| has_bit(ev, 4) && has_bit(mask, 4)
            ||| has_bit(ev, 5) && has_bit(mask, 5)
            ||| has_bit(ev, 6) && has_bit(mask, 6)
            ||| has_bit(ev, 7) && has_bit(mask, 7)
        });
    }
    if exists|b: u8| b < 8 && #[trigger] has_bit(ev, b) && has_bit(mask, b) {
        let b = choose|b: u8| b < 8 && #[trigger] has_bit(ev, b) && has_bit(mask, b);
        assert(b < 8 && (ev >> b) & 1 == 1 && (mask >> b) & 1 == 1 ==> ev & mask != 0)
            by (bit_vector);
    }
}

/// The position of the first event of `events` that has a bit of `mask`.
pub(crate) fn position_of_hit(events: &VecDeque<u8>, mask: u8) -> (pos: Option<usize>)
    ensures
        match pos {
            Some(i) => i < events@.len() && i == first_hit(events@, mask),
            None => first_hit(events@, mask) == events@.len(),
        },
{
    let n: usize = events.len();
    let mut i: usize = 0;
    while i < n
        invariant
            n == events@.len(),
            i <= n,
            forall|k: int| 0 <= k < i ==> !hits(#[trigger] events@[k], mask),
        decreases n - i,
    {
        if events[i] & mask != 0 {
            proof {
                lemma_first_hit_unique(events@, mask, i as int);
            }
            return Some(i);
        }
        i = i + 1;
    }
    proof {
        lemma_first_hit_unique(events@, mask, n as int);
    }
    None
}

/// The bits that some event of `events` has.
pub(crate) fn union_of(events: &VecDeque<u8>) -> (set: u8)
    ensures
        set == event_union(events@),
{
    let n: usize = events.len();
    let mut i: usize = 0;
    let mut set: u8 = 0;
    while i < n
        invariant
            n == events@.len(),
            i <= n,
            set == event_union(events@.take(i as int)),
        decreases n - i,
    {
        proof {
            assert(events@.take(i + 1).drop_last() =~= events@.take(i as int));
        }
        set = set | events[i];
        i = i + 1;
    }
    proof {
        assert(events@.take(n as int) =~= events@);
    }
    set
}

/// The events `set` of a usercall as an event on a queue, if the enclave may name
/// them.
pub fn check_event_set(set: u64) -> (checked: Result<u8, ErrorKind>)
    ensures
        valid_event_set(set) ==> checked is Ok && checked->Ok_0 as u64 == set,
        !valid_event_set(set) ==> checked == Err::<u8, ErrorKind>(ErrorKind::InvalidInput),
        set < 8 ==> checked == Ok::<u8, ErrorKind>(set as u8),
        set >= 8 ==> checked == Err::<u8, ErrorKind>(ErrorKind::InvalidInput),
{
    proof {
        law_event_sets(set, 0, 0);
    }
    let all: u64 = ev_usercallq_not_full() | ev_returnq_not_empty() | ev_unpark();
    assert(0b0001u64 | 0b0010u64 | 0b0100u64 == 0b0111u64) by (bit_vector);
    if (set & !all) != 0 {
        return Err(ErrorKind::InvalidInput);
    }
    assert(set & !0b0111u64 == 0 ==> (set as u8) as u64 == set) by (bit_vector);
    Ok(set as u8)
}

/// Takes the next event for a wait off `pending` or `queue`. `pending_set` is the
/// union of the events of `pending`, and spares the search where it has no bit of
/// the mask.
pub(crate) fn take_event(
    pending: &mut VecDeque<u8>,
    pending_set: &mut u8,
    queue: &mut VecDeque<u8>,
    mask: u8,
    indefinite: bool,
) -> (outcome: Wait)
    requires
        *old(pending_set) == event_union(old(pending)@),
    ensures
        *final(pending_set) == event_union(final(pending)@),
        final(pending)@ == deliver(old(pending)@, old(queue)@, mask, indefinite).pending,
        final(queue)@ == deliver(old(pending)@, old(queue)@, mask, indefinite).queue,
        outcome == deliver(old(pending)@, old(queue)@, mask, indefinite).outcome,
{
    let ghost p0 = pending@;
    let ghost q0 = queue@;
    proof {
        lemma_first_hit(p0, mask);
        lemma_union_hits(p0, mask);
    }
    if (*pending_set & mask) != 0 {
        if let Some(pos) = position_of_hit(pending, mask) {
            if let Some(ev) = pending.remove(pos) {
                *pending_set = union_of(pending);
                return Wait::Ready(Ok(ev as u64));
            }
        }
    }
    assert(first_hit(p0, mask) == p0.len());
    let ghost mut taken: int = 0;
    loop
        invariant
            0 <= taken <= q0.len(),
            queue@ == q0.skip(taken),
            pending@ == p0 + q0.take(taken),
            *pending_set == event_union(pending@),
            first_hit(p0, mask) == p0.len(),
            p0 == old(pending)@,
            q0 == old(queue)@,
            forall|k: int| 0 <= k < taken ==> !hits(#[trigger] q0[k], mask | ABORT_EVENT),
        ensures
            queue@ =~= Seq::<u8>::empty(),
            pending@ == p0 + q0,
            first_hit(q0, mask | ABORT_EVENT) == q0.len(),
        decreases queue@.len(),
    {
        match queue.pop_front() {
            None => {
                proof {
                    lemma_first_hit_unique(q0, mask | ABORT_EVENT, taken);
                    assert(q0.take(taken) =~= q0);
                }
                break;
            },
            Some(ev) => {
                assert(ev == q0[taken]);
                assert(queue@ =~= q0.skip(taken + 1));
                let abort: u8 = ABORT_EVENT;
                assert(ev & (mask | abort) != 0 <==> (ev & mask != 0 || ev & abort != 0)) by (bit_vector);
                if (ev & abort) != 0 {
                    proof {
                        lemma_first_hit_unique(q0, mask | ABORT_EVENT, taken);
                    }
                    return Wait::Ready(Err(ErrorKind::Other));
                }
                if (ev & mask) != 0 {
                    proof {
                        lemma_first_hit_unique(q0, mask | ABORT_EVENT, taken);
                    }
                    return Wait::Ready(Ok(ev as u64));
                }
                pending.push_back(ev);
                *pending_set = *pending_set | ev;
                proof {
                    assert(pending@.drop_last() =~= p0 + q0.take(taken));
                    assert(pending@ =~= p0 + q0.take(taken + 1));
                    taken = taken + 1;
                }
            },
        }
    }
    if indefinite {
        Wait::Blocked
    } else {
        Wait::Ready(Err(ErrorKind::WouldBlock))
    }
}

} // verus!
