# quinn_proto

Verified congestion control and send-path tracing for a QUIC transport, written in
Verus.

`src/` is the library. Every function in it is verified against its contract, but
for three wrappers whose contracts are trusted: `seeded_generator` and `draw_below`
in `random` call the random number generator, and `pop_first_packet` in
`operations` calls `BTreeMap::pop_first`. Trusted too is that a clone of the
generator is in the generator's state.

- `congestion` holds the interface between a connection and its congestion
  controller, and `congestion::bbr2` the BBRv1 controller and an experimental
  BBRv2 mode.
  - `model` says what each step of the controller means, as a function from one
    state to the next.
  - `operations` and `controller` are the code, proved to do just that.
  - `loss_state`, `ack_aggregation`, `bw_estimation` and `min_max` are the
    measurements that the controller rests on.
  - `laws` states what holds of the controller as a whole, and `history` what
    holds after any number of reports.
  - `frame` holds the lemmas on what the steps leave alone.
  - `random` holds the boundary to the random number generator.
- `gain` applies gains with the rounding of binary floating point, in integers.
- `time` and `connection` are the clock and the round-trip time as the controller
  sees them.
- `send_path_trace` records send-path events in a ring and lays the ring out as a
  file; `trace_decode` reads such a file back. That reading gives back what was
  recorded is proved there.
- `wire` and `arith` are small helpers.

`app/` is a program around the library: the offline decoder for trace files, the
ring that the threads of a process share, and controllers behind trait
objects.

Counters that could overflow are named in the `.._fits` predicates, which are the
preconditions of the controller's reports. `laws::law_ordinary_batches_fit` gives
plain bounds under which the largest of them holds.
