# gpionext

A Raspberry Pi GPIO / I2C game-controller daemon and its terminal
configuration tool. The library in `src/` holds the logic, verified with
Verus: the configuration model (mappings, pin fields, virtual pin numbers),
the pin and chip arithmetic, the input-event decisions of the daemon, its
control requests and command line, and the configuration tool's dialogs,
tabs and wizards. `app/` is the thin front end that talks to the kernel
(GPIO lines, I2C buses, uinput), the sockets, the files and the terminal.

Layout of `src/`:

- `text` — characters, trimming, splitting, number parsing and printing
- `config` — the configuration file's model and its editing operations
- `peripheral`, `uinput` — mappings as the event engine sees them, and the
  events a press or release sends
- `gpio`, `i2c`, `constants`, `ipc` — pins, lines, chips and the live pin
  state
- `daemon`, `core_start`, `init_sys`, `log` — the daemon's decisions
- `presets` — built-in HAT layouts
- `ui` — the configuration tool's interaction logic
- `properties` — laws that span several modules
