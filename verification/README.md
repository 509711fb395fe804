# mamut

A verification harness for distributed systems: operation histories with
logical and physical clocks, consistency checkers (linearizability,
sequential and causal consistency, custom invariants), TLA+ trace
validation support, operation generators and the state behind a C
interface.

- `src/` is the library, written in Verus: every function carries a
  contract that Verus proves, and the laws of the library (clock orders,
  round trips, what checks promise) are proof functions.
- `tests/` runs the library on concrete values.
- `app/` is the ordinary Rust around it: serde forms and file I/O, running
  TLC as a process, asynchronous checker, generator and store interfaces,
  the floating-point parts (confidence of uncertainty intervals, weighted
  random generators) and the C ABI.
