# monoio (verified core)

The bookkeeping of a thread-per-core async runtime, written in Verus and
proved against its contracts:

- `slab`: the paged slab that holds the I/O sources of the poll driver:
  its contents as a map, the key the next insertion gives out, the free
  list of each page (freed slots come back most recent first), page
  compaction, and the number of values held.
- `state`, `task`: the task state word (lifecycle, notification, join
  interest, reference count) and the decisions of polling, waking,
  completing and dropping tasks and join handles.
- `ready`, `scheduled_io`, `legacy`: readiness flags, the wakers that wait on
  a source, and how poller events, cancels and would-block results update them.
- `vec_wrapper`: accounting of partial transfers over vectored buffers.
- `runtime`: the round budget and park decision of the driving loop.
- `laws`: properties that relate several operations.

`app/` holds what talks to the operating system or keeps global and
thread-local state: the mio-based driver, the registries of unpark handles
and waker senders, the driving loop, and the socket-credential call.
