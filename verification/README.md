# ulpf

A verified core for a log pre-processing framework. It reads firewall log lines
into normalised OCSF network events and takes the decisions of the command-line
tools around them. The library is written in Verus: each function states what it
returns, and Verus proves it.

## Layout

- `src/` is the verified library.
  - `cisco_asa` reads Cisco ASA messages; `asa_laws` states what holds of every
    event it makes.
  - `ocsf` is the event; `fields` holds what no other place of it takes.
  - `endpoint`, `ip`, `number`, `direction` and `protocol` read the parts of a
    message. `text` and `lines` are the string operations below them.
  - `ingest`, `corpus`, `benchmark`, `evaluation`, `onboard`, `audit`, `inspect`
    and `tamper` hold the decisions of the tools.
- `app/` is the command-line program: arguments, sockets, files and terminal.
- `tests/` runs the library.

## What is taken on trust

Regular expressions are compiled and run by `regex`, JSON is read by
`serde_json`, and the clock is read by `chrono`. A few string functions of the
standard library have contracts here too. Each of these calls stands in a small
wrapper whose comment says what is claimed of it: see `pattern`, `inspect`,
`clock`, `onboard` and `text`.
