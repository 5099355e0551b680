# apogee

The core of a minimal x86-64 kernel, verified with Verus.

`src/` holds the verified library:

- `allocator`: `align_up`, the heap's page range, and three heap allocators
  (bump, linked-list, fixed-size blocks with per-class free lists), each with
  a view of its bookkeeping and the state transitions that allocation and
  freeing perform.
- `thread`: kernel threads (a stack whose top holds the initial switch frame)
  and the cooperative round-robin scheduler, which decides every switch.
- `task`: task ids, tasks, the FIFO executor and the waker-driven executor,
  which decide what to poll next and what to keep after a poll, and the
  decoding of keyboard scancodes into key presses.
- `scheduler`: the kernel's runtime counters (ticks, live and cumulative counts
  of threads, tasks and processes), and the law that keeps them balanced.
- `userland`: the syscall frame, syscall dispatch, and the user memory layout.
- `interrupts`, `logger`, `process`: interrupt vectors, log tags, and process
  records.

`app/` is the kernel runtime around it: hardware tables, interrupt and syscall
entry stubs, context switching, the executor loops that poll futures, the
serial console and logging, the keyboard scancode stream and key printing, and heap set-up.

`tests/` runs the library on concrete values.
