# artinchip-flash

A flasher for boards with ArtInChip SoCs, over USB or a serial port.

- `src/` is the library. Everything in it is verified with Verus: the command and status
  wrappers (`protocol`), the commands and the burn (`device`), framing, transactions and the
  console of the serial line (`uart`), bulk transfers and the search for devices (`usb`), the
  settings file (`app_config`), the texts and paths of the program (`standalone`, `listing`, `paths`), and
  the decisions behind the window (`gui`). What talks to the outside is a step function: it takes
  what happened and says what to do next.
- `tests/` runs the library on concrete values, among them a model of the device's side of the
  serial line.
- `app/` is the program around it: arguments, ports, the bus, files and the window.

A device is driven through the trait `UpgTransport`. The contracts of the commands are stated
over the requests that went through it, in order, with their outcomes; `device/talk.rs` says for
each command which requests those are, and `device/burn.rs` says it for a whole burn.

Four calls are trusted rather than proved: `String::push`, `str::from_utf8`,
`String::from_utf8_lossy` and `crc32fast::hash`. Each carries a comment on what is claimed of it.
So are the promises that `UpgTransport` makes for its implementations: each request is recorded
once, and nothing else about the link changes.
