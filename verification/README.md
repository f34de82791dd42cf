# netband

Ping, packet loss, and download/upload tests from the terminal, with the rules that decide
what is measured, when, and what is written down verified with Verus.

`src/` is the library. Everything in it is verified; calls into other crates stand behind small
wrappers whose contracts say what is relied on.

- `config`, `cli`: settings from the command line and a file, and what is wrong with them.
- `ping`, `health`, `interfaces`, `monitor`: rounds of probes, how their results are judged, and
  which interface has its turn.
- `scheduler`: when bandwidth tests may start, and the accounting that survives restarts.
- `provider`, `bandwidth`, `endpoint`, `tls`: finding a server, reaching it, and the course of a
  test.
- `journal`, `console`, `model`, `sanitize`: the durable CSV record and the live view.
- `exit`, `shutdown`: how a command ends.
- `text`, `string_map`, `scalar`, `time`, `digest`, `names`: what the others are built on.

Properties that span several functions are public proof functions whose names begin with `law_`.

Floating-point values are kept by an integer that orders as they do (`scalar`).

`app/` is the program around the library: arguments, sockets, files, signals and the async
runtime. `tests/` run the library on concrete values.
