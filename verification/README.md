# turntable

Firmware logic for a WiFi-controlled turntable: an ESP32 drives a 28BYJ-48
stepper motor through a ULN2003 board and takes commands over a small HTTP
API (`GET /` serves the control page; `POST /api/rotate`, `/api/speed`,
`/api/continuous` and `/api/stop` take JSON bodies).

The library in `src/` is verified with Verus:

- `stepper` — coil sequences for full and half stepping, step phase, gear
  reduction and step delay, with laws on stepping back and forth and on
  whole sequences;
- `text` — searching, Unicode white space and word splitting over the
  characters of a string;
- `fixed` — the fixed-capacity `heapless` buffers used while handling a
  request;
- `http` — request line and body, JSON parameters, routing to motor
  commands, response heads;
- `control` — what the motor task does for each command, continuous
  rotation included;
- `link` — the WiFi task's reconnect and address-wait decisions.

`app/` is the firmware around it: peripherals, WiFi, the TCP server, the
GPIO pins, timers, and the speed and angle conversions, which are done in
floating point.
