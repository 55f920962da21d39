# around

The core of a cross-platform audio player engine, written in Verus: the
library's logic under `src/` is proved against its contracts. A few functions
there carry no contract Verus could prove: the trusted wrappers around outside
code (among them the probe of the machine's byte order), and the atomic
status cells shared between threads, whose contents Verus does not see.

- `src/` — the verified library: PCM formats and buffers, the WAV and raw PCM
  codecs, codec selection and the codec registry, output planning, the
  control protocol's commands and answers (with their protobuf mirror and
  varint framing), the decode loop's decisions, configuration read from KDL,
  and the checks of the output session. Calls into outside crates (`base64`,
  `kdl`, `ringbuf`, std's text functions) go through a few trusted wrappers
  whose contracts say what the library relies on.
- `tests/` — tests that run the library, outside crates linked.
- `app/` — the program around it: the command line, the control server and
  its JSON wire format, threads and files, floating-point sample conversion,
  the filter chain, codec libraries loaded at run time, and audio output
  through cpal.
