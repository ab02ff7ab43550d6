# ev3_controller

A desktop controller for a LEGO Mindstorms EV3 brick running ev3dev: a
dashboard of motors, sensors and battery, motor controls, and a terminal
with a program editor that talks to the brick over SSH.

- `src/` is the verified library (Verus). It holds the program's logic:
  parsing the brick's sysfs readings into motors, sensors, alerts
  and the battery reading; the queue of motor commands and the desired speeds;
  turning commands into HTTP requests or shell commands; the reconnection
  protocol of the polling loop; the editor's command history, completions
  and file browser; the shell commands, the meaning of the brick's
  replies and the steps of a program run.
  - `text`, `decimal`: string and integer operations with exact
    specifications (trimming, splitting, replacing, decimal rendering and
    parsing).
  - `state`: the brick's state, the desired-speed table, the command queue.
  - `polling`: the polling loop's decisions and the telemetry parsers.
  - `status`: the dashboard's snapshot.
  - `editor`: the terminal/editor state.
  - `remote`, `program`: shell commands, requests and reply handling.
  - `display`: colours, file tags and console texts.
- `app/` is the program around it: the egui window, the SSH session, the
  HTTP requests, the threads and timers, and what needs floating point
  (reading sensor values and the battery voltage as numbers, the gauges).
- `tests/` exercises the library on concrete values.
