# gtaurus_server

A WebSocket bridge between the Gtaurus web frontend and a FluidNC CNC
controller, whose decision logic is verified with Verus.

- `src/` is the verified library:
  - `text` — lines, trimming, words, substrings, as the standard library
    defines them, over sequences of characters;
  - `stream` — which file lines are commands, the feed-rate override, and the
    line-by-line streaming session;
  - `channel` — a subscribed client's event channel, with the record of
    every message handed to it;
  - `job` — the job state machine (start, pause, resume, cancel, progress,
    completion) and the broadcast of `job://status` events;
  - `worker` — the streaming worker's next move (stop, wait, skip, send or
    finish) and what it reports to the job, which a newer job never hears;
  - `events` — the JSON text of job events and reports;
  - `commands` — the command names of the invoke API and argument defaults;
  - `config` — the server configuration and the serial auto-connect choice;
  - `paths`, `checkpoint` — client path resolution, where local files are
    read, saved and copied, resume checkpoint paths and the checkpoint
    commands' arguments;
  - `camera` — `v4l2-ctl` control lists and Crowsnest configuration files;
  - `tool` — what a CAM tool name says about the tool.
- `app/` holds the server around it: sockets, threads, files, processes,
  serial ports, the machine driver and the floating-point geometry.
- `tests/` runs the library on concrete values.
