# TelemetryForge

Drives Turing / TURZX USB serial displays with live system readings:
CPU and GPU temperatures, load, clocks, fans, memory, disks, network,
volume and weather, drawn as text, bars, rings, graphs, GIFs and
superwidgets, with automatic screen rules and a remote deck in the browser.

## Layout

- `src/` is the library, verified with Verus. Each public function states
  in its contract what it returns or changes; the laws that relate several
  functions are public proof functions named `law_*`.
  - `protocol`: the display's serial command set and pixel encoding.
  - `frame`: change detection between frames, crops, alpha bounds, tinting
    and bounded sensor histories.
  - `scene`: the automatic screen rule engine and transition timing.
  - `detection`: recognising the display among serial ports and choosing
    the port.
  - `persistence`, `package`: file names and paths of configuration, saved
    screens and packages.
  - `widgets`, `readings`, `rendering`, `hardware`: what widgets show, which
    reading is chosen, the render loop's decisions, the sensor bridge's
    output.
  - `auth`, `remote`: password hashing, Basic authentication and the remote
    deck's commands.
  - `sdk`, `superwidgets`, `pack`: the superwidget guest interface,
    manifests and packaging.
  - `text`, `sorting`: string helpers and stable case-insensitive ordering.
- `tests/` exercises the library on concrete values.
- `app/` is the program: serial I/O, sensors, rendering in floating point,
  files, the HTTP server and the render loop, calling the library for every
  decision.
