# tale

The core of Tale, a keyboard-driven terminal interface for a Tailscale
network, written in Verus: the library's logic is proved by Verus against
its contracts. Where a result rests on the clock, on chance or on other
threads, the contract says only what holds of every outcome.

## Layout

- `src/` — the verified library.
  - `text`, `numbers`, `civil`, `detail`, `json`: text and number handling,
    calendar arithmetic, byte-bounded details, and JSON documents as plain
    values.
  - `paths`: where configuration, credentials, state and cache live, and the
    lexical path rules used to place them.
  - `local`: the local `tailscale` client and daemon — command lines,
    executable discovery, output and report decoders, line-by-line reading of
    streaming diagnostics, the newline-delimited
    notification stream, the watch session state machine and its pacing,
    and the decisions around local changes and service requests: which
    fresh state a change is checked against and the verdict it gets, and
    when a service request is refused before its command.
  - `mock`: the fictional local client and tailnet shown in demonstration
    mode.
  - `secrets`, `temporary`, `task`, `terminal`: credential records and
    stores, checks on temporary policy files, the task store with its task
    life cycle, saving, eviction and selection, and the terminal's
    acquire/release protocol.
- `tests/` — tests of the library, run against the compiled crate.
- `app/` — the parts that touch the system: processes, sockets, files, the
  terminal, the clock and the environment. It gathers plain values, hands them
  to the library and carries out what the library decides.

## Checking

Laws that span several functions stand in `src/` as public proof functions,
for example `local::ipn::reconnect_delays_grow_to_a_cap`,
`local::daemon::framing_ignores_chunking`,
`local::client::resolution_reads_only_lookup_paths`,
`task::finished_tasks_stay_finished`,
`task::eviction_keeps_unfinished_tasks`,
`local::mutation::verified_only_on_fresh_match` and `secrets::read_after_write`.

## Left out

Some of the client's work rests on its domain model of services, accounts,
routes and task queries, which is not part of this code base: the Serve and
Funnel status decoders and mapping commands (mapping validation and order),
the account-list decoder (merging of duplicate accounts and display labels),
the preferences decoder and the advertisement command (route parsing), the
filtered task selectors (query matching), and the ping summary. They are not
in the library, since nothing here says what those pieces do. JSON text is
read by `app/`, where numbers are also read as durations in floating point;
the library decodes the parsed documents. The helper that bounds task details
is not part of this code base either; the library keeps the latest part of a
detail within its byte limit.
