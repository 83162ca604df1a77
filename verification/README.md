# bluetooth_mouse

A Bluetooth HID mouse whose pointer twitches, with its decisions verified by Verus.

- `src/` is the library.
  - `io_option`: a stream that may not be there yet.
  - `connection`: a connection to a host, its event channel and its controller.
  - `handler`, `handler_laws`: how a connected host is served, and what holds of that
    however the inputs come.
  - `server`, `server_laws`: which channels of which hosts are accepted, and what holds
    of that however hosts come and go.
  - `report`: the layout of the mouse's input report.
  - `address`, `errno`: where the mouse listens, and the system errors it tells apart.
- `tests/` runs the library on concrete values.
- `app/` is the program around it: sockets, timers, the D-Bus session, and the HID
  encodings, which it takes from the `hidp` and `hid_device_*` crates.

`Cargo.toml` names `dbus` for its `vendored` feature alone: with it `bluer` builds
without a libdbus on the system.
