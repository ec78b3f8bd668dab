# efbench-core

A gRPC ping-pong benchmark for a network interface: a client streams pings
to a server that answers each with a 16 KiB pong, and reports per second the
mean latency, the throughput and the interface's RX/TX rates, either live in
a terminal view or as a PNG plot at the end.

- `src/` is the verified library: the decisions of the benchmark loop and the
  reporter (`bench`), the sliding windows of the live view (`live`), reading
  the kernel's interface counters (`sysfs`, `text`), the server's answers
  (`server`), and the addresses, paths and messages (`addr`, `plot`).
- `app/` is the program around it: command line, gRPC transport, the
  terminal UI and the plotting, started as `efbench-server` it serves.
- `tests/` runs the library on concrete values.
