# s80

Terminal-native latency/jitter visualizer, with its logic verified in Verus.

```
$ s80 1.1.1.1
s80 1.1.1.1 (1.1.1.1) — ^C for stats
!!!!!!!!!!!!!!!!!.!!!!!!!!!!!!,!!!!!!!!!!!!!!!!!!!!!!!!!!!!!!!!!!!!!!
```

- `src/` is the library: the command line, the wire formats, the run as a
  state machine, the statistics, the colors, the tick strip. Every function
  carries a contract; the `law_*` proof functions state what holds across
  functions.
- `app/` is the program around it: sockets, clock, signals, stdout, and what
  is computed in floating point.
- `tests/` runs the library on concrete values.

Trusted without proof: `String::push` appends its character (`src/text.rs`),
and the system's error codes are read from libc, with nothing claimed of their
values (`src/probe.rs`).
