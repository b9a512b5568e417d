# aks-tui

A terminal browser for AKS: one tab per namespace across your clusters, pod
health at a glance. `kubectl` and `az` do the reading underneath.

The logic is a library verified with Verus; a thin program around it runs
processes, reads and writes files, and paints the terminal.

## Layout

| | |
|---|---|
| `src/kube/` | a pod as `kubectl` lists it, when each scope is read again, and what the end of a call means |
| `src/app/` | the tabs and their screens: what a key, a click or a worker's event makes of them |
| `src/ui/` | what a frame shows and where, down to the cell, and what a click on it is for |
| `src/doctor/` | `aks-tui doctor` and `aks-tui setup`, one step at a time |
| `src/store.rs`, `src/cache.rs`, `src/session.rs` | what was read, what the next start is painted from, and the layout that outlives a run |
| `src/run.rs` | the terminal loop's decisions |
| `src/text.rs`, `src/json.rs`, `src/timestamp.rs` | text, documents and moments |
| `tests/` | the library from outside |
| `app/` | the program |

Every executable function states what it returns or changes over a model of
its arguments. The properties that span several functions are the public
proof functions whose names begin with `law_`. What is believed rather than
proved is marked where it stands: `serde_json`'s reading, `ratatui`'s layout
and line wrapping, the system clock, the debug form of a text, and
`String::push`.
