# Daikin HomeKit Bridge

Bridges classic-API Daikin air conditioners (Wi-Fi adapters such as BRP069Bxx)
to Apple HomeKit, with a LAN-only web UI for managing devices and watching
activity.

- `src/` is the library: what the bridge decides and computes, verified with
  Verus. `daikin` reads a unit's replies and writes its commands, `hk` maps unit
  state onto HomeKit and back, `bridge` manages the devices, `config`,
  `activity`, `web` and `startup` hold the rules of the configuration, the log,
  the web service and the start. `text`, `number`, `single` and `encoding` are
  what these are built on; `single` stands for 32-bit floating-point numbers by
  their bit patterns.
- `app/` is the program around it: sockets, files, the HomeKit server and the
  web server. It hands the library what came in and does what the library says.
- `tests/` runs the library.

What holds of the library as a whole stands in proof functions whose names
start with `law_`.
