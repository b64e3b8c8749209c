//! The state of an enclave as contracts see it, and what the operations do to it.
use crate::abi::{Fd, FD_STDERR, FD_STDIN, FD_STDOUT};
use crate::abort::{EnclaveAbort, EnclavePanic};
use crate::error::ErrorKind;
use crate::event::{is_queued_event, valid_event_set, ABORT_EVENT};
use crate::fd::FileDesc;
use crate::tcs::{StoppedTcs, TcsAddress};
use vstd::prelude::*;

verus! {

/// The event queue of a TCS.
#[verifier::ext_equal]
pub struct QueueView {
    /// The events on the queue, the oldest first.
    pub events: Seq<u8>,
    /// Whether somebody owns the TCS, so that events can still be received.
    pub connected: bool,
}

impl QueueView {
    /// A queue on which nothing has come in.
    pub open spec fn fresh() -> QueueView {
        QueueView { events: Seq::empty(), connected: true }
    }

    /// The queue after `ev` has been sent. What nobody can receive is dropped.
    pub open spec fn sent(self, ev: u8) -> QueueView {
        if self.connected {
            QueueView { events: self.events.push(ev), connected: true }
        } else {
            self
        }
    }

    /// The queue after its TCS has been given up.
    pub open spec fn disconnected(self) -> QueueView {
        QueueView { events: self.events, connected: false }
    }
}

/// How an enclave is run.
#[verifier::ext_equal]
pub enum KindView<T> {
    /// As a program, from its main entry point.
    Command {
        /// The TCSs that can be launched; the last one goes first.
        threads: Seq<StoppedTcs<T>>,
        /// The reason that brought the enclave down, if it was not the main thread's.
        primary_panic_reason: Option<EnclaveAbort<EnclavePanic>>,
        /// The reasons of the threads that came later.
        other_reasons: Seq<EnclaveAbort<EnclavePanic>>,
        /// How many threads have been launched.
        running_secondary_threads: nat,
        /// Whether a thread has ended the program without a panic.
        clean_exit: bool,
    },
    /// As a library, one call at a time on each TCS.
    Library {
        /// The TCSs that are free, the one that has waited longest first.
        threads: Seq<StoppedTcs<T>>,
    },
}

/// The state of an enclave.
#[verifier::ext_equal]
pub struct EnclaveView<T, S, L> {
    /// How the enclave is run.
    pub kind: KindView<T>,
    /// The event queues, by the address of their TCS.
    pub queues: Map<usize, QueueView>,
    /// What the open descriptors stand for.
    pub fds: Map<Fd, FileDesc<S, L>>,
    /// The descriptor that was opened last.
    pub last_fd: nat,
    /// Whether the enclave is going down.
    pub exiting: bool,
}

/// Whether `abort` brings down the whole program, and not just the thread it comes from.
pub open spec fn is_primary(abort: EnclaveAbort<EnclavePanic>) -> bool {
    abort is Exit || abort is InvalidUsercall
}

/// An empty event queue for each of the addresses `a`.
pub open spec fn fresh_queues(a: Seq<TcsAddress>) -> Map<usize, QueueView> {
    Map::new(|x: usize| a.contains(TcsAddress(x)), |x: usize| QueueView::fresh())
}

/// The descriptors with which an enclave starts.
pub open spec fn standard_fds<S, L>(stdin: S, stdout: S, stderr: S) -> Map<Fd, FileDesc<S, L>> {
    map![
        FD_STDIN => FileDesc::Stream(stdin),
        FD_STDOUT => FileDesc::Stream(stdout),
        FD_STDERR => FileDesc::Stream(stderr),
    ]
}

impl<T, S, L> EnclaveView<T, S, L> {
    /// An enclave with TCSs at `a` that has not run yet.
    pub open spec fn fresh(
        kind: KindView<T>,
        a: Seq<TcsAddress>,
        stdin: S,
        stdout: S,
        stderr: S,
    ) -> Self {
        EnclaveView {
            kind,
            queues: fresh_queues(a),
            fds: standard_fds(stdin, stdout, stderr),
            last_fd: FD_STDERR as nat,
            exiting: false,
        }
    }

    /// The TCSs that are free.
    pub open spec fn pool(self) -> Seq<StoppedTcs<T>> {
        match self.kind {
            KindView::Command { threads, .. } => threads,
            KindView::Library { threads } => threads,
        }
    }

    /// Whether the TCS at `address` is free.
    pub open spec fn in_pool(self, address: TcsAddress) -> bool {
        exists|i: int| 0 <= i < self.pool().len() && (#[trigger] self.pool()[i]).address == address
    }

    /// Whether the TCS at `address` belongs to the enclave, is alive and is not
    /// free: somebody outside the pool owns it.
    pub open spec fn checked_out(self, address: TcsAddress) -> bool {
        &&& self.queues.contains_key(address.0)
        &&& self.queues[address.0].connected
        &&& !self.in_pool(address)
    }

    /// Whether no descriptor is above the one that was opened last.
    pub open spec fn fds_wf(self) -> bool {
        &&& self.last_fd <= usize::MAX
        &&& forall|fd: Fd| #[trigger] self.fds.contains_key(fd) ==> fd <= self.last_fd
    }

    /// Whether only events that make sense are on the queues.
    pub open spec fn queues_wf(self) -> bool {
        forall|a: usize, i: int|
            self.queues.contains_key(a) && 0 <= i < self.queues[a].events.len() ==> is_queued_event(
                #[trigger] self.queues[a].events[i],
            )
    }

    /// Whether the free TCSs are different ones, all of them alive.
    pub open spec fn pool_wf(self) -> bool {
        &&& forall|i: int|
            0 <= i < self.pool().len() ==> {
                &&& self.queues.contains_key((#[trigger] self.pool()[i]).address.0)
                &&& self.queues[self.pool()[i].address.0].connected
            }
        &&& forall|i: int, j: int|
            0 <= i < j < self.pool().len() ==> (#[trigger] self.pool()[i]).address != (
            #[trigger] self.pool()[j]).address
        &&& self.kind matches KindView::Command { threads, running_secondary_threads, .. }
            ==> running_secondary_threads + threads.len() <= usize::MAX
    }

    /// Whether the reason that brought a program down is one that can do so.
    pub open spec fn reasons_wf(self) -> bool {
        self.primary_panic_reason() matches Some(reason) ==> is_primary(reason)
    }

    /// What holds of an enclave at all times.
    pub open spec fn wf(self) -> bool {
        &&& self.fds_wf()
        &&& self.queues_wf()
        &&& self.pool_wf()
        &&& self.reasons_wf()
    }

    /// The state with other event queues.
    pub open spec fn with_queues(self, queues: Map<usize, QueueView>) -> Self {
        EnclaveView { queues, ..self }
    }

    /// The state with the events `events` on the queue of the TCS at `address`.
    pub open spec fn with_events(self, address: TcsAddress, events: Seq<u8>) -> Self {
        self.with_queues(
            self.queues.insert(
                address.0,
                QueueView { events, connected: self.queues[address.0].connected },
            ),
        )
    }

    /// The state after `ev` has been sent to the TCS at `address`.
    pub open spec fn sent_to(self, address: TcsAddress, ev: u8) -> Self {
        self.with_queues(self.queues.insert(address.0, self.queues[address.0].sent(ev)))
    }

    /// The state after `ev` has been sent to every TCS.
    pub open spec fn sent_to_all(self, ev: u8) -> Self {
        self.with_queues(self.queues.map_values(|q: QueueView| q.sent(ev)))
    }

    /// The state after the enclave has been told to go down.
    pub open spec fn aborted(self) -> Self {
        EnclaveView { exiting: true, ..self.sent_to_all(ABORT_EVENT) }
    }

    /// The state after a thread has asked for the enclave to be destroyed.
    pub open spec fn exited(self, panic: bool) -> Self {
        EnclaveView {
            kind: match self.kind {
                KindView::Command {
                    threads,
                    primary_panic_reason,
                    other_reasons,
                    running_secondary_threads,
                    clean_exit,
                } => KindView::Command {
                    threads,
                    primary_panic_reason,
                    other_reasons,
                    running_secondary_threads,
                    clean_exit: clean_exit || !panic,
                },
                KindView::Library { threads } => KindView::Library { threads },
            },
            ..self.aborted()
        }
    }

    /// The state after the TCS at `address` has been given up.
    pub open spec fn retired(self, address: TcsAddress) -> Self {
        self.with_queues(self.queues.insert(address.0, self.queues[address.0].disconnected()))
    }

    /// The state with other free TCSs.
    pub open spec fn with_pool(self, pool: Seq<StoppedTcs<T>>) -> Self {
        EnclaveView {
            kind: match self.kind {
                KindView::Command {
                    threads: _,
                    primary_panic_reason,
                    other_reasons,
                    running_secondary_threads,
                    clean_exit,
                } => KindView::Command {
                    threads: pool,
                    primary_panic_reason,
                    other_reasons,
                    running_secondary_threads,
                    clean_exit,
                },
                KindView::Library { threads: _ } => KindView::Library { threads: pool },
            },
            ..self
        }
    }

    /// What the `send` usercall gives back.
    pub open spec fn send_result(self, event_set: u64, target: Option<TcsAddress>) -> Result<
        (),
        ErrorKind,
    > {
        if !valid_event_set(event_set) || event_set == 0 {
            Err(ErrorKind::InvalidInput)
        } else if target matches Some(a) && !self.queues.contains_key(a.0) {
            Err(ErrorKind::InvalidInput)
        } else {
            Ok(())
        }
    }

    /// The state after the `send` usercall.
    pub open spec fn after_send(self, event_set: u64, target: Option<TcsAddress>) -> Self {
        if self.send_result(event_set, target) is Err {
            self
        } else {
            match target {
                Some(a) => self.sent_to(a, event_set as u8),
                None => self.sent_to_all(event_set as u8),
            }
        }
    }

    /// The state after all free TCSs have been given up.
    pub open spec fn pool_retired(self) -> Self {
        self.with_pool(Seq::empty()).with_queues(
            Map::new(
                |a: usize| self.queues.contains_key(a),
                |a: usize|
                    if self.in_pool(TcsAddress(a)) {
                        self.queues[a].disconnected()
                    } else {
                        self.queues[a]
                    },
            ),
        )
    }

    /// The reason that brought a program down, if it was not the main thread's.
    pub open spec fn primary_panic_reason(self) -> Option<EnclaveAbort<EnclavePanic>> {
        match self.kind {
            KindView::Command { primary_panic_reason, .. } => primary_panic_reason,
            KindView::Library { .. } => None,
        }
    }

    /// The state after that reason has been taken out.
    pub open spec fn primary_taken(self) -> Self {
        EnclaveView {
            kind: match self.kind {
                KindView::Command {
                    threads,
                    primary_panic_reason: _,
                    other_reasons,
                    running_secondary_threads,
                    clean_exit,
                } => KindView::Command {
                    threads,
                    primary_panic_reason: None,
                    other_reasons,
                    running_secondary_threads,
                    clean_exit,
                },
                KindView::Library { threads } => KindView::Library { threads },
            },
            ..self
        }
    }

    /// Whether a thread has ended a program without a panic.
    pub open spec fn clean_exit(self) -> bool {
        match self.kind {
            KindView::Command { clean_exit, .. } => clean_exit,
            KindView::Library { .. } => false,
        }
    }

    /// The state after the reason `abort` of a launched thread has been kept. The first one
    /// that can bring a program down is the primary one. That a thread went down with another
    /// one is no reason.
    pub open spec fn reason_kept(self, abort: EnclaveAbort<EnclavePanic>) -> Self {
        EnclaveView {
            kind: match self.kind {
                KindView::Command {
                    threads,
                    primary_panic_reason,
                    other_reasons,
                    running_secondary_threads,
                    clean_exit,
                } => if is_primary(abort) && primary_panic_reason is None {
                    KindView::Command {
                        threads,
                        primary_panic_reason: Some(abort),
                        other_reasons,
                        running_secondary_threads,
                        clean_exit,
                    }
                } else if abort is Secondary {
                    self.kind
                } else {
                    KindView::Command {
                        threads,
                        primary_panic_reason,
                        other_reasons: other_reasons.push(abort),
                        running_secondary_threads,
                        clean_exit,
                    }
                },
                KindView::Library { threads } => KindView::Library { threads },
            },
            ..self
        }
    }

    /// The state of a program after a free TCS has been launched.
    pub open spec fn launched(self) -> Self {
        EnclaveView {
            kind: match self.kind {
                KindView::Command {
                    threads,
                    primary_panic_reason,
                    other_reasons,
                    running_secondary_threads,
                    clean_exit,
                } => KindView::Command {
                    threads: threads.drop_last(),
                    primary_panic_reason,
                    other_reasons,
                    running_secondary_threads: running_secondary_threads + 1,
                    clean_exit,
                },
                KindView::Library { threads } => KindView::Library { threads },
            },
            ..self
        }
    }

    /// The state after `desc` has been given a descriptor of its own.
    pub open spec fn with_new_fd(self, desc: FileDesc<S, L>) -> Self {
        EnclaveView {
            fds: self.fds.insert((self.last_fd + 1) as Fd, desc),
            last_fd: self.last_fd + 1,
            ..self
        }
    }

    /// The state after the descriptor `fd` has been closed.
    pub open spec fn without_fd(self, fd: Fd) -> Self {
        EnclaveView { fds: self.fds.remove(fd), ..self }
    }
}

} // verus!
