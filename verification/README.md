# cargopit

A Linux device manager for driving simulators: it reads live telemetry from
the simapi shared memory and drives USB HID wheels and pedals, serial
(Arduino/ESP32) devices, Moza rims and PulseAudio bass shakers.

- `src/` is the library, verified with Verus: the telemetry frame layout,
  the device reports and wire protocols (RevBurner, Cammus, Simagic, Moza,
  simled strips, serial haptics), the Lua LED helpers, the scheduler, the
  command line, the control socket protocol, log lines, paths, the simd
  start-up walk, the tachometer XML reader and writer, tyre diameters, the
  capture trace, the play loop's decisions, profile loading (routing,
  skipping, tachometer tables, the RevBurner's open, the load's notices),
  the hardware test's plan and script, and the laws that tie them together.
- `app/` is the program around it: `main`, files, sockets, signals, the
  PulseAudio, serial, HID and Lua bindings, and the floating-point halves of
  the haptic, sound and rim computations. The parser of the configuration
  file's format is not part of this project, so the program reads no device
  profile: play mode loads no devices and test mode finds no profile; of the
  device backends only the RevBurner tachometer is opened by the program.
- `tests/` exercises the library.
