# rust_scrcpy

A verified library for mirroring Android screens: it drives a scrcpy server over `adb`, reads the
framed video stream, keeps a decoder in step with it, and sends touches, keys, texts and clipboard
contents back.

- `src/` decides and computes. All of its logic is verified with Verus: the wire formats, the
  grouping of H.264 units into pictures, the queues that keep the newest frames, the keyboard
  reports, the start-up and recovery of sessions, the tables of sessions, and the reading of what a
  detection model says. The functions named `law_…` state what holds across several calls.
- `app/` does what the library decides: processes, sockets, threads, graphics and the model. It
  asks the library for the next step and hands back what came of it.
- `tests/` runs the library on concrete values.

Floating-point numbers reach the library as their bits (`float_bits`). Times are nanoseconds or
milliseconds since a start that the caller picks.

## What is trusted

Five functions call code from outside, and their contracts are taken as true: in `text`,
`push_char` (`String::push`), `to_lowercase` (`str::to_lowercase`) and `lossy_text`
(`String::from_utf8_lossy`); in `framed_video`, `bytes_from_vec` and `bytes_to_vec` (the `bytes`
crate). With them come the declaration of `bytes::Bytes` (`ExBytes`) and three names for what
they give: `lowercase`, `repaired_utf8` and `bytes_content`. Each doc comment says what is claimed.
