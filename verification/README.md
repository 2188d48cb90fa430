# rnull

A null block driver and the parts of the block layer that it is made of, verified with Verus.

- `src/rnull.rs` and `src/rnull/`: the driver. `transfer` moves the data of requests to and from the
  pages in `tree`; `pass` says what processing a request comes to; `laws` states what holds of
  requests as a whole; `configfs` and `module` hold the configuration.
- `src/block/`: bios and their segments, requests and their reference counts, disks, block devices.
- `src/time/`: times and high resolution timers.
- `src/device.rs`, `src/subsys.rs`: devices and classes of the driver model.
- `src/types.rs`: reference counts, shared and unique references.
- `src/text.rs`: numbers as text.
- `app/`: locks, atomics and the calls into the rest of the kernel.
- `tests/`: tests on concrete values.

What the rest of the kernel grants or refuses, such as memory, comes in as a `Grants` value: the
number of requests that go through before one is refused, and the error that it is refused with.
