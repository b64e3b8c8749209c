//! What becomes of an enclave once a thread has left it.
use crate::abort::{EnclaveAbort, EnclaveError, EnclavePanic};
use crate::running::{EnclaveEntry, RunningTcs};
use crate::state::EnclaveState;
use crate::tcs::StoppedTcs;
use vstd::prelude::*;

verus! {

/// How a thread left an enclave: what the entry point returned, or why it did not.
pub type Left = Result<(u64, u64), EnclaveAbort<bool>>;

/// What is left of a thread that was in an enclave: its TCS and what the entry point
/// returned, or why there is nothing left.
pub type Entered<T> = Result<(StoppedTcs<T>, (u64, u64)), EnclaveAbort<EnclavePanic>>;

/// What a thread that entered at `mode` has returned, if it left the enclave in good
/// order. A program ends by exiting, and its main entry point must not return.
pub open spec fn returned(mode: EnclaveEntry, left: Left) -> Option<(u64, u64)> {
    match left {
        Err(EnclaveAbort::Exit { panic }) => if panic {
            None
        } else {
            Some((0, 0))
        },
        Err(_) => None,
        Ok(r) => if mode is ExecutableMain {
            None
        } else {
            Some(r)
        },
    }
}

/// Whether a thread that did not leave in good order is said to have stopped for
/// `abort`.
pub open spec fn stopped_for(left: Left, abort: EnclaveAbort<EnclavePanic>) -> bool {
    match left {
        Err(EnclaveAbort::Exit { .. }) => abort matches EnclaveAbort::Exit { panic }
            && panic.is_blank(),
        Err(EnclaveAbort::Secondary) => abort is Secondary,
        Err(EnclaveAbort::IndefiniteWait) => abort is IndefiniteWait,
        Err(EnclaveAbort::InvalidUsercall(n)) => abort == EnclaveAbort::<
            EnclavePanic,
        >::InvalidUsercall(n),
        Err(EnclaveAbort::MainReturned) => abort is MainReturned,
        Ok(_) => abort is MainReturned,
    }
}

impl RunningTcs {
    /// The TCS to show to an attached debugger before the thread is taken down: that of
    /// a thread that panicked.
    pub fn debugger_trap(&self, left: &Left) -> (address: Option<usize>)
        ensures
            address == (match *left {
                Err(EnclaveAbort::Exit { panic }) => if panic {
                    Some(self.address().0)
                } else {
                    None::<usize>
                },
                _ => None::<usize>,
            }),
    {
        match left {
            Err(EnclaveAbort::Exit { panic }) => if *panic {
                Some(self.get_address().0)
            } else {
                None
            },
            _ => None,
        }
    }

    /// Takes a thread off its TCS after it has left the enclave. If it did not leave in
    /// good order, the TCS is given up.
    pub fn entry_end<T, S, L>(
        self,
        enclave: &mut EnclaveState<T, S, L>,
        mode: EnclaveEntry,
        tcs: T,
        left: Left,
    ) -> (entered: Entered<T>)
        requires
            old(enclave).wf(),
            old(enclave)@.checked_out(self.address()),
        ensures
            final(enclave).wf(),
            match entered {
                Ok((stopped, result)) => {
                    &&& returned(mode, left) == Some(result)
                    &&& stopped == (StoppedTcs { tcs, address: self.address() })
                    &&& final(enclave)@ == old(enclave)@
                },
                Err(abort) => {
                    &&& returned(mode, left) is None
                    &&& stopped_for(left, abort)
                    &&& final(enclave)@ == old(enclave)@.retired(self.address())
                },
            },
            entered is Ok <==> {
                ||| left is Ok && mode != EnclaveEntry::ExecutableMain
                ||| left == Err::<(u64, u64), EnclaveAbort<bool>>(
                    EnclaveAbort::Exit { panic: false },
                )
            },
            entered is Ok && left is Ok ==> entered->Ok_0.1 == left->Ok_0,
            entered is Ok && left is Err ==> entered->Ok_0.1 == (0u64, 0u64),
    {
        let address = self.get_address();
        let stopped = StoppedTcs { tcs, address };
        let abort: EnclaveAbort<EnclavePanic> = match left {
            Err(EnclaveAbort::Exit { panic: true }) => EnclaveAbort::Exit {
                panic: EnclavePanic::blank(),
            },
            Err(EnclaveAbort::Exit { panic: false }) => {
                return Ok((stopped, (0, 0)));
            },
            Err(EnclaveAbort::IndefiniteWait) => EnclaveAbort::IndefiniteWait,
            Err(EnclaveAbort::InvalidUsercall(n)) => EnclaveAbort::InvalidUsercall(n),
            Err(EnclaveAbort::MainReturned) => EnclaveAbort::MainReturned,
            Err(EnclaveAbort::Secondary) => EnclaveAbort::Secondary,
            Ok(result) => {
                if mode == EnclaveEntry::ExecutableMain {
                    EnclaveAbort::MainReturned
                } else {
                    return Ok((stopped, result));
                }
            },
        };
        enclave.retire(stopped);
        Err(abort)
    }
}

/// What is left of a thread of a program that is not the main one. Its entry point must
/// have returned nothing.
pub fn thread_entry_end<T>(entered: Entered<T>) -> (ended: Result<
    StoppedTcs<T>,
    EnclaveAbort<EnclavePanic>,
>)
    requires
        entered matches Ok((_, result)) ==> result == (0u64, 0u64),
    ensures
        ended == (match entered {
            Ok((tcs, _)) => Ok::<StoppedTcs<T>, EnclaveAbort<EnclavePanic>>(tcs),
            Err(abort) => Err::<StoppedTcs<T>, EnclaveAbort<EnclavePanic>>(abort),
        }),
{
    match entered {
        Ok((tcs, _)) => Ok(tcs),
        Err(abort) => Err(abort),
    }
}

/// Whether the main thread went down for a reason of its own, which then counts.
pub open spec fn main_panicking<T>(entered: Entered<T>) -> bool {
    match entered {
        Err(EnclaveAbort::MainReturned) => true,
        Err(EnclaveAbort::InvalidUsercall(_)) => true,
        Err(EnclaveAbort::Exit { .. }) => true,
        Err(EnclaveAbort::IndefiniteWait) => false,
        Err(EnclaveAbort::Secondary) => false,
        Ok(_) => false,
    }
}

/// The reason for which a program failed, if it did: that of the main thread, unless
/// another thread's reason `primary` explains it. A main thread that only went down with
/// another one has not failed if that one ended the program with a `clean_exit`.
pub open spec fn main_reason<T>(
    entered: Entered<T>,
    primary: Option<EnclaveAbort<EnclavePanic>>,
    clean_exit: bool,
) -> Option<EnclaveAbort<EnclavePanic>> {
    if !main_panicking(entered) && primary is Some {
        primary
    } else if clean_exit && entered matches Err(EnclaveAbort::Secondary) {
        None
    } else {
        match entered {
            Err(abort) => Some(abort),
            Ok(_) => None,
        }
    }
}

/// What the caller of a program is told about `reason`.
pub open spec fn main_error(reason: EnclaveAbort<EnclavePanic>) -> EnclaveError {
    match reason {
        EnclaveAbort::Exit { panic } => EnclaveError::Panic(panic),
        EnclaveAbort::IndefiniteWait => EnclaveError::AllThreadsWaiting,
        EnclaveAbort::InvalidUsercall(n) => EnclaveError::InvalidUsercall(n),
        EnclaveAbort::MainReturned => EnclaveError::MainReturned,
        EnclaveAbort::Secondary => EnclaveError::OtherThreadAborted,
    }
}

/// What the caller of a library is told about `reason`.
pub open spec fn library_error(reason: EnclaveAbort<EnclavePanic>) -> EnclaveError {
    match reason {
        EnclaveAbort::Exit { panic } => EnclaveError::Panic(panic),
        EnclaveAbort::IndefiniteWait => EnclaveError::ThreadWaiting,
        EnclaveAbort::InvalidUsercall(n) => EnclaveError::InvalidUsercall(n),
        EnclaveAbort::Secondary => EnclaveError::OtherThreadAborted,
        EnclaveAbort::MainReturned => EnclaveError::MainReturned,
    }
}

/// Whether the main thread went down for a reason of its own.
fn is_main_panicking<T>(entered: &Entered<T>) -> (panicking: bool)
    ensures
        panicking == main_panicking(*entered),
{
    match entered {
        Err(EnclaveAbort::MainReturned) => true,
        Err(EnclaveAbort::InvalidUsercall(_)) => true,
        Err(EnclaveAbort::Exit { .. }) => true,
        Err(EnclaveAbort::IndefiniteWait) => false,
        Err(EnclaveAbort::Secondary) => false,
        Ok(_) => false,
    }
}

impl<T, S, L> EnclaveState<T, S, L> {
    /// The program is over, and all its threads with it: what its caller is told. If the main
    /// thread went down with another one and nothing was kept of that one, this is all that can
    /// be told.
    pub fn main_entry_end(&mut self, entered: Entered<T>) -> (ended: Result<(), EnclaveError>)
        requires
            old(self).wf(),
            old(self)@.kind is Command,
            entered matches Ok((tcs, _)) ==> old(self)@.queues.contains_key(tcs.address.0)
                && !old(self)@.in_pool(tcs.address),
        ensures
            final(self).wf(),
            ended == (match main_reason(
                entered,
                old(self)@.primary_panic_reason(),
                old(self)@.clean_exit(),
            ) {
                Some(reason) => Err::<(), EnclaveError>(main_error(reason)),
                None => Ok::<(), EnclaveError>(()),
            }),
            final(self)@ == (match entered {
                Ok((tcs, _)) => old(self)@.primary_taken().retired(tcs.address),
                Err(_) => old(self)@.primary_taken(),
            }),
    {
        let panicking: bool = is_main_panicking(&entered);
        let clean_exit: bool = self.clean_exit();
        let primary = self.take_primary_panic_reason();
        assert(self@.pool() == old(self)@.pool());
        let own: Option<EnclaveAbort<EnclavePanic>> = match entered {
            Ok((tcs, _)) => {
                self.retire(tcs);
                None
            },
            Err(abort) => Some(abort),
        };
        let reason: Option<EnclaveAbort<EnclavePanic>> = match (panicking, primary) {
            (false, Some(reason)) => Some(reason),
            _ => match own {
                Some(EnclaveAbort::Secondary) if clean_exit => None,
                own => own,
            },
        };
        match reason {
            Some(EnclaveAbort::Exit { panic }) => Err(EnclaveError::Panic(panic)),
            Some(EnclaveAbort::IndefiniteWait) => Err(EnclaveError::AllThreadsWaiting),
            Some(EnclaveAbort::InvalidUsercall(n)) => Err(EnclaveError::InvalidUsercall(n)),
            Some(EnclaveAbort::MainReturned) => Err(EnclaveError::MainReturned),
            Some(EnclaveAbort::Secondary) => Err(EnclaveError::OtherThreadAborted),
            None => Ok(()),
        }
    }

    /// A call into a library is over: what its caller is told. If it went well, the TCS is
    /// free again.
    pub fn library_entry_end(&mut self, entered: Entered<T>) -> (ended: Result<
        (u64, u64),
        EnclaveError,
    >)
        requires
            old(self).wf(),
            old(self)@.kind is Library,
            !(entered matches Err(EnclaveAbort::MainReturned)),
            entered matches Ok((tcs, _)) ==> old(self)@.checked_out(tcs.address),
        ensures
            final(self).wf(),
            match entered {
                Ok((tcs, result)) => {
                    &&& ended == Ok::<(u64, u64), EnclaveError>(result)
                    &&& final(self)@ == old(self)@.with_pool(old(self)@.pool().push(tcs))
                },
                Err(abort) => {
                    &&& ended == Err::<(u64, u64), EnclaveError>(library_error(abort))
                    &&& final(self)@ == old(self)@
                },
            },
    {
        match entered {
            Err(EnclaveAbort::Exit { panic }) => Err(EnclaveError::Panic(panic)),
            Err(EnclaveAbort::IndefiniteWait) => Err(EnclaveError::ThreadWaiting),
            Err(EnclaveAbort::InvalidUsercall(n)) => Err(EnclaveError::InvalidUsercall(n)),
            Err(EnclaveAbort::Secondary) => Err(EnclaveError::OtherThreadAborted),
            Err(EnclaveAbort::MainReturned) => Err(EnclaveError::MainReturned),
            Ok((tcs, result)) => {
                self.library_entry_put(tcs);
                Ok(result)
            },
        }
    }
}

} // verus!
