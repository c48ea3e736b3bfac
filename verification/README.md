# rust_thread_demo

Small demonstrations of sharing data between threads (scoped threads,
mutexes, read-write locks, channels, atomics, once-cells, lazy values,
thread-locals, condition variables, parking), split in two:

- `src/` is the verified library: what the threads compute and decide, over
  plain values: splitting a slice into chunks and summing it without
  overflow, the counter updates made under a lock, the messages producers
  send, a set-once slot, a lazily computed value, and the task queue of a
  worker that parks when idle.
- `app/` is the program: it spawns the threads, locks, parks and prints, and
  calls the library for the values above.
- `tests/` exercises the library on concrete values.
