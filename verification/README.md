# enclave-usercalls

The host side of an SGX enclave: what the runner does when a thread of an enclave makes a
usercall, and how it keeps track of the threads while they run.

* `src/` is the library, verified with Verus. It holds the shared state
  of an enclave (event queues, descriptors, free thread control structures), the rules by which
  threads enter, wait, send, launch each other and go down, and what a caller is told in the end.
  `src/laws.rs` and `src/history.rs` state what holds of it as a whole.
* `tests/` runs the library on concrete values.
* `app/` is ordinary Rust around the library: it takes the locks, sleeps, starts threads, opens
  sockets, reads and writes, and hands the results to the library.

The library believes, without proof, what `src/abi.rs` says of the constants of
`fortanix-sgx-abi`, what `src/fnv_map.rs` says of the maps of `fnv`, and one statement each about
`std::str::from_utf8` and `std::alloc::Layout::from_size_align`.
