# shmem_ipc

Two-way message channels between two processes over shared memory, written in
[Verus](https://github.com/verus-lang/verus): what the two processes compute and
decide is executable Rust with proved contracts. The system calls and the accesses to
the shared memory are ordinary Rust around it, and are not proved.

A channel is one file that holds a header and two byte rings, one for each
direction. Each ring has one sender and one receiver. A message is a record of a
length, a sequence number and a payload; it is published whole, by moving the write
cursor once, so a receiver never sees half of one. A process that finds its ring empty or full spins
for a while and then sleeps on a notification word, and whoever moves a cursor
wakes it.

## Layout

- `src/` is the verified library. Its functions take what was read from shared
  memory, the clock or the operating system as plain values and give back what to
  write, or what to do next.
  - `circular`, `record`, `ring`: the byte ring, the records in it, and its sender
    and receiver.
  - `header`: the channel's header and the layout of its file.
  - `wait`, `publish`, `wakeup`: when to spin and when to sleep, in what order a change
    is made known, and that no sleeper misses one.
  - `channel`, `connection`: the two ends of a channel and the halves of a
    connection.
  - `listener`, `bootstrap`, `pipe`: how a client finds a server and gets a channel
    of its own.
  - `platform`: names of files and events, and the watch over the other process.
  - `tokio`: the same operations for tasks that must not block a thread.
  - `text`, `error`: names in decimal, hexadecimal and UTF-16, and the errors.
  - `laws`, and the `law_` functions of the other modules: what holds across several
    operations, such as that messages arrive whole, once and in order.
- `app/` maps the files, makes the system calls and runs the loops that the
  library decides on, for threads and for tokio tasks, on Linux and on Windows.
- `tests/` runs the library on concrete channels, held in memory.
