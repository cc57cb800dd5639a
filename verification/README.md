# Tether

Tether gives [Herdr](https://github.com/ogulcancelik/herdr) durable terminal
workloads: local or SSH-backed `tmux` sessions that keep running when the pane
that shows them goes away. Closing a view leaves a workload running, Stop ends
it, and opening it again brings it back.

The rules of Tether are a library that is verified with
[Verus](https://github.com/verus-lang/verus). Every public function has a contract
that says what it returns or changes, and the promises that span functions are
proved as public proof functions.

## Layout

- `src/` is the verified library.
  - `model`, `state`, `config`, `clock`, `uuids`: identifiers, records, groups
    and settings.
  - `lifecycle*`, `launch`, `session_list`, `tmux_*`, `audit`: creating,
    opening, stopping, restarting, removing and pruning workloads.
  - `herdr*`, `socket_client`, `pane_title`, `keybinding`: requests to Herdr and
    what its answers mean.
  - `orchestration`, `mission_control`, `agent_view`: groups of workloads, the
    agents that work in them and the sidebar view.
  - `observer*`, `manager*`, `paint`, `capture`: the interactive surfaces and
    what they show.
  - `discovery*`, `path_order`: the search for repositories, here and on other
    machines.
  - `selection`, `ssh_target`, `command_text`, `doctor`, `notices`: what the
    commands decide and say.
- `tests/` runs the library on concrete values.
- `app/` is the program around the library: arguments, files, processes, sockets
  and the terminal.

## How the library meets the world

An operation that alternates decisions with outside work is a chain of steps.
Each step is a value that says what is to be asked next, and takes the answer to
become the next step: stopping a workload goes from `StopInspection` over
`StopReservation`, `StopRecheck` and `StopClose` to `StopFinish`. The steps are
verified for every answer; `app/` asks the questions.

What is not proved is stated in the doc comments of the few functions that call
other crates: UUIDs, time, JSON and TOML, grapheme clusters, cell widths, layout
and painting.
