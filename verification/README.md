# turn_start_bridge

Delivers messages from outside into a live conversation with an app server, and
decides when each of them is released: at once, while a turn runs, behind a tool
call, behind any item, or with the next turn.

`src/` is the verified library. It holds no input or output: every loop that
waits for something is a state machine that takes what happened and says what is
to be done next.

- `queue_mode`, `controller`, `controller_model`, `controller_laws`: the queues of
  one thread, and what holds of them.
- `message`, `xml`, `xml_reader`, `chunking`, `text`: how messages are framed.
- `structured_input`, `thread_map`, `adapter`, `items`: input beside the keyboard
  of an interactive session.
- `bridge`, `bridge_input`, `bridge_options`, `sideband`, `side_channel`: the
  bridge between a stream of messages and an app server.
- `stdio`, `stdio_handshake`, `stdio_worker`, `turn_client`, `protocol`: the
  connection to an app server.
- `idle_timing`: how long a turn runs and how long nothing happens.

`app/` is the program around it: arguments, file descriptors, child processes and
JSON. `tests/` runs the library with the crates that it calls.
