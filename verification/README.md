# irrigator

The rules of a garden irrigation daemon, verified with Verus, and the daemon
around them.

- `src/` is the library. `text` reads and writes numbers and words; `time` holds
  points in time, local clocks and dates; `flow` counts volumes in pulses of the
  sensor; `schedule` checks, orders and reads slots; `state` holds the session,
  the log and the texts that people see; `target` holds the daily target;
  `session` opens and closes the valve; `command` answers the chat; `scheduler`
  closes in time, reports and follows the schedule; `web` answers the web; `laws`
  states what holds of the whole.
- `tests/` runs the library.
- `app/` is the daemon: GPIO, state file, chat and web server.

Volumes are counted in pulses of the flow sensor, 617 to the litre; one that is
read from the state file becomes the nearest whole number of pulses. The daily
target is kept as the bit pattern of a double-precision number. The files of the
web interface are read from `./ui`, or from the directory that
`IRRIGATOR_UI_DIR` names.

`Cargo.toml` names `takecell`, which only teloxide needs, to hold it at 0.1.1: the
next version asks for a newer compiler.
