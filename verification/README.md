# pincers

The registers, seats and requests of Pincer, a Wayland clipboard manager inspired by Vim's register
model, verified with Verus.

A `Pincer` has ten numeric registers, `"0` through `"9`, 26 named registers, `"a` through `"z`, and a
register pointer that may be unset. The numeric registers are a first-in-first-out queue: whatever is
copied goes in `"0` and pushes the previous clippings up. It is also stored in the register that the
register pointer is set to, and the next paste reads that register.

- `src/` is the verified library. `register` and `address` hold registers and their addresses,
  `pincer` the registers of one seat, `daemon` the answers to requests, `client` what a user is told
  about an answer, `seat` and `clipboard` what is known of the compositor's seats and selections,
  `assoc` a map that keeps the order of its keys, and `text` the pieces of messages. `laws` states
  what holds of several operations together.
- `tests/` runs the library on concrete values.
- `app/` is the program around it: the command line, the socket and the Wayland connection.
