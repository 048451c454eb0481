# loadgen

A load generator for serverless benchmarks. It issues benchmark commands at a
fixed rate (open loop) or from a fixed number of workers (closed loop), reads
each command's reported duration, cleans up the Firecracker containers the
commands leave behind, samples CPU and memory use while it runs, and prints a
latency summary at the end.

- `src/` is the verified library (Verus): the decisions of both loops, the
  text processing of command, `top` and `ps` output, decimal parsing, random
  container identifiers, the command lines of the benchmark jobs, command-line
  arguments and the latency summary.
- `app/main.rs` is the driver: process spawning, timers, channels, signals,
  files and the floating-point handling of durations.
- `tests/` exercises the library on concrete values.
