# infinigpu

One physical GPU shared by many virtual machines, and the desktop of each shown on a remote
screen. The decisions are a library with contracts that Verus proves; the calls into Vulkan, the
window system, the network and the operating system stand around it.

## Layout

- `src/ring.rs`: the command ring between a guest and its host, and its fences.
- `src/sched/`: who may use the GPU. Admission against limits, the memory ledger, weighted shares
  by token buckets, and the broker that puts them together. `laws.rs` states what holds over
  sequences of requests.
- `src/gpu/`: Vulkan's numbers, the choice of memory types, caches, and the steps of which the
  plans are made, with the order in which what they made is destroyed.
- `src/replay/`: what a draw of a guest becomes. Pipelines and their cache, descriptors, the plans
  of each kind of frame, the commands that are recorded, and the messages of the replay process.
- `src/viewer/`: the remote screen. Frames and cursors off the wire, input, composition, the
  swapchain and the command line.
- `app/`: the program. It carries out the plans, and reads and writes what the library decides on.
- `tests/`: the library from outside.

Contracts speak of mathematical models: a ring is a sequence, the broker is a map of accounts, a
plan is a sequence of steps. Functions named `law_...` state what follows of several of them
together. What is believed of other crates and of the standard library stands in the few
declarations marked as such in `src/sched/clock.rs`, `src/replay/process.rs`,
`src/viewer/stream.rs` and `src/viewer/decoder.rs`.
