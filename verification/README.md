# kori

The logic of a Linux application that monitors and controls NZXT hardware, as a
verified library: what a device can do, what may be written to it, how readings
age, what the daemon is asked and how its answers are judged, and what each
screen shows.

- `src/` is the library. Every function in it carries a contract that Verus
  proves, and the properties that span functions are public proof functions.
- `tests/` runs the library on concrete values.
- `app/` is ordinary Rust around it: the JSON the protocol is written in, the
  socket, the environment and the contrast arithmetic of the theme.

Readings that are real numbers on the wire are held as thousandths, and what is
computed from them as a significand over a power of two, with single-precision
rounding stated exactly (`measure::Measured`). Positions on the screen are
thousandths of a pixel (`geometry`). The one fact about the standard library taken on trust is what
`String::push` does, stated in `text`.
