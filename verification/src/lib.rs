//! The host side of an enclave: what the runner does when a thread of an enclave makes a
//! usercall, and how it keeps track of the threads while they run.
//!
//! The shared state of an enclave is `state::EnclaveState`. It holds the event queues of the
//! threads, the descriptors that the enclave has open, and the thread control structures
//! (TCSs) that are free. Contracts see it as a `view::EnclaveView`, and say of each operation
//! which state it leads to. `running` and `outcome` follow a thread from the moment it enters
//! the enclave to what its caller is told, `sync` is how the main thread of a program waits for
//! the others, and `net`, `stdio`, `memory` and `misc` hold what the other usercalls decide.
//!
//! What holds of the library as a whole stands in `laws`, what each operation does to the parts of
//! the state in `effects`, and what holds after any number of steps in `history`.
//!
//! The library does no input or output, takes no lock and starts no thread. Where a thread has to
//! sleep it says so, and its caller calls again when something has changed.

pub mod abi;
pub mod abort;
pub mod effects;
pub mod error;
pub mod event;
pub mod fd;
mod fnv_map;
pub mod history;
pub mod laws;
pub mod memory;
pub mod misc;
pub mod net;
pub mod outcome;
pub mod running;
pub mod state;
pub mod stdio;
pub mod sync;
pub mod tcs;
pub mod view;
