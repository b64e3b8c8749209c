//! A thread inside an enclave.
use crate::abi::{wait_indefinite, wait_no, WAIT_INDEFINITE, WAIT_NO};
use crate::error::ErrorKind;
use crate::event::{
    check_event_set, deliver, event_union, hits, is_sent_event, law_event_sets,
    valid_event_set, Wait,
};
use crate::history::lemma_deliver_keeps_order;
use crate::laws::all_sent;
use crate::state::EnclaveState;
use crate::tcs::{StoppedTcs, TcsAddress};
use std::collections::VecDeque;
use vstd::prelude::*;

verus! {

/// At which of its entry points an enclave is entered.
#[derive(Copy, Clone, Debug, PartialEq, Eq, Structural)]
pub enum EnclaveEntry {
    /// The main entry point of a program.
    ExecutableMain,
    /// The entry point of the other threads of a program.
    ExecutableNonMain,
    /// The entry point of a library, with the arguments of the call.
    Library {
        /// The first argument.
        p1: u64,
        /// The second argument.
        p2: u64,
        /// The third argument.
        p3: u64,
        /// The fourth argument.
        p4: u64,
        /// The fifth argument.
        p5: u64,
    },
}

impl EnclaveEntry {
    /// What the enclave is handed on entry.
    pub fn params(&self) -> (params: (u64, u64, u64, u64, u64))
        ensures
            params == (match *self {
                EnclaveEntry::Library { p1, p2, p3, p4, p5 } => (p1, p2, p3, p4, p5),
                _ => (0, 0, 0, 0, 0),
            }),
    {
        match self {
            EnclaveEntry::Library { p1, p2, p3, p4, p5 } => (*p1, *p2, *p3, *p4, *p5),
            _ => (0, 0, 0, 0, 0),
        }
    }
}

/// A thread that has entered an enclave.
pub struct RunningTcs {
    address: TcsAddress,
    pending_event_set: u8,
    pending_events: VecDeque<u8>,
}

impl RunningTcs {
    /// Where the TCS of the thread is.
    pub closed spec fn address(&self) -> TcsAddress {
        self.address
    }

    /// The events that the thread has taken off its queue and not delivered yet.
    pub closed spec fn pending(&self) -> Seq<u8> {
        self.pending_events@
    }

    /// Whether the union of the pending events is kept right and all of them were
    /// sent by the enclave.
    pub closed spec fn wf(&self) -> bool {
        &&& self.pending_event_set == event_union(self.pending_events@)
        &&& all_sent(self.pending_events@)
    }

    /// What a thread has taken off its queue and not delivered yet was sent by the enclave: the
    /// abort of the enclave is not among it.
    pub proof fn law_pending_was_sent(&self)
        requires
            self.wf(),
        ensures
            all_sent(self.pending()),
    {
    }

    /// Where the TCS of the thread is.
    pub fn get_address(&self) -> (address: TcsAddress)
        ensures
            address == self.address(),
    {
        self.address
    }

    /// Puts a thread on a TCS. The handle is for entering the enclave.
    pub fn entry_begin<T>(tcs: StoppedTcs<T>) -> (begun: (T, RunningTcs))
        ensures
            begun.0 == tcs.tcs,
            begun.1.wf(),
            begun.1.address() == tcs.address,
            begun.1.pending() == Seq::<u8>::empty(),
    {
        let state = RunningTcs {
            address: tcs.address,
            pending_event_set: 0,
            pending_events: VecDeque::new(),
        };
        (tcs.tcs, state)
    }

    /// Waits for an event that has a bit of `event_mask`. A wait that is `Blocked` is
    /// taken up again, with the same arguments, when the queue has something more. An event
    /// that is given back was sent by the enclave and waited for.
    pub fn wait<T, S, L>(
        &mut self,
        enclave: &mut EnclaveState<T, S, L>,
        event_mask: u64,
        timeout: u64,
    ) -> (outcome: Wait)
        requires
            old(self).wf(),
            old(enclave).wf(),
            old(enclave)@.queues.contains_key(old(self).address().0),
        ensures
            final(self).wf(),
            final(enclave).wf(),
            final(self).address() == old(self).address(),
            (timeout != WAIT_NO && timeout != WAIT_INDEFINITE) || !valid_event_set(event_mask) ==> {
                &&& outcome == Wait::Ready(Err(ErrorKind::InvalidInput))
                &&& final(self).pending() == old(self).pending()
                &&& final(enclave)@ == old(enclave)@
            },
            (timeout == WAIT_NO || timeout == WAIT_INDEFINITE) && valid_event_set(event_mask) ==> ({
                let delivery = deliver(
                    old(self).pending(),
                    old(enclave)@.queues[old(self).address().0].events,
                    event_mask as u8,
                    timeout == WAIT_INDEFINITE,
                );
                &&& outcome == delivery.outcome
                &&& final(self).pending() == delivery.pending
                &&& final(enclave)@ == old(enclave)@.with_events(
                    old(self).address(),
                    delivery.queue,
                )
            }),
            (timeout != 0 && timeout != u64::MAX) || event_mask >= 8 <==> outcome == Wait::Ready(
                Err(ErrorKind::InvalidInput),
            ),
            outcome matches Wait::Ready(Ok(ev)) ==> ev <= u8::MAX && is_sent_event(ev as u8)
                && hits(ev as u8, event_mask as u8),
    {
        proof {
            law_event_sets(event_mask, 0, 0);
        }
        let indefinite: bool = if timeout == wait_no() {
            false
        } else if timeout == wait_indefinite() {
            true
        } else {
            return Wait::Ready(Err(ErrorKind::InvalidInput));
        };
        let mask: u8 = match check_event_set(event_mask) {
            Ok(mask) => mask,
            Err(e) => {
                return Wait::Ready(Err(e));
            },
        };
        let ghost v = enclave@;
        let ghost p0 = self.pending_events@;
        let outcome: Wait = enclave.receive(
            self.address,
            &mut self.pending_events,
            &mut self.pending_event_set,
            mask,
            indefinite,
        );
        proof {
            lemma_deliver_keeps_order(v, self.address, p0, mask, indefinite);
        }
        outcome
    }
}

} // verus!
