# stringdriver

Control software for a string-driver installation: Arduino-driven steppers move
dampers (Z), a carriage (X) and tuners along the strings, guided by GPIO touch and
limit sensors and by the partials an audio monitor writes to shared memory.

- `src/` is the verified library (Verus). It holds the carriage protocol (frames,
  escaping, position replies), the configuration loaders, the stepper panel model and
  its socket protocol, the GPIO sensor model, the operations (bump check, Z
  calibration, Z adjustment, X homing and sweeps) as step-by-step procedures, the
  operations panel's planning and reporting, the launcher's decisions, the streaming
  pipeline description and the synthesis update loop. Each public function carries a
  contract; the properties that relate several functions are stated as proof functions.
- `app/` is the program around it: serial ports, Unix sockets, GPIO character
  devices, shared memory, processes, and the floating-point audio analysis.
- `tests/` runs the library on concrete values.
