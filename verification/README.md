# rpa_browser

The decisions behind a managed automation browser, verified with Verus: which browser to use,
whether the one that was started earlier still runs and may be used again, how to start a new one,
and how callers and tasks share it.

- `src/` is the verified library. It works on plain values; the few calls that it makes into std
  and serde_json stand behind documented, trusted functions.
  - `text`: characters, lines, words and numerals
  - `paths`: when two texts name the same path
  - `environment`: installed browsers and the configuration
  - `command_line`: what a process's command line says
  - `ports`: who listens on a port
  - `cdp`: whether what answered is a browser
  - `managed`: whether the recorded browser may be used again
  - `start`: connecting to it or starting one
  - `launch`: ports, arguments, attempts and the wait for a started browser
  - `session`: the shared connection
  - `tabs`: what belongs to one task
  - `queries`: what the system is asked
  - `error`: refusals and their texts
- `app/` does what the library decides: processes, sockets, files and the browser driver.
- `tests/` runs the library.

Doubt never leads to a second browser on one profile: a recorded process that may be alive but
cannot be verified is neither reused nor replaced. The proof functions named `law_..` in `managed`
and `start` state this.
