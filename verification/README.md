# procmon

The rules of a terminal process monitor, written in Verus and proved
against their contracts.

- `src/` is the verified library:
  - `security/`: the security score of a process and its rules (signature
    verdicts, parent chains and lineage rules, suspicious paths and user path
    rules, command lines, name spoofing and other behaviour checks, network
    flows and the SNI whitelist, token privileges, loaded modules), the score
    cache and the content-hash reputation cache.
  - `tree.rs`: the process tree (anomaly counts, filters, visible rows,
    search, expansion toggling, keeping the expansion across rebuilds) and
    the clipboard text of a process.
  - `palette.rs`, `search.rs`, `help.rs`: the command palette, the search
    box and the table of shortcuts on the help page.
  - `ui_state.rs`, `theme.rs`: the preferences text and the theme choice.
  - `smart.rs`, `smartctl.rs`, `throttle.rs`, `schannel.rs`, `pty.rs`, `display.rs`:
    disk health and the reading of smartctl's JSON, CPU throttling summaries, ETW record decoding, terminal key
    bytes, and the text helpers of the panels.
  - `text.rs`, `assoc.rs`, `order.rs`, `process.rs`, `pattern.rs`: strings,
    association lists, string order and sorting, process snapshots, regular
    expressions.
- `app/` is the unverified shell: Ctrl+C handling, configuration files,
  the signature cache on disk, file hashing, running smartctl (and the
  temperature it reports, a float), key events,
  theme colors and the background scoring thread.
- `tests/` exercises the library on concrete values.

Outside crates are called from the library only through small trusted
wrappers (`regex`, `sha2`, `nucleo`, `serde_json`, `unicode-width`, and a few `std`
string functions), each documented where it is declared.

The caches keyed by text (the score cache, the content-hash reputation
cache and the SNI whitelist) are association lists in a `Vec` with
distinct keys, in place of hash maps: with `String` keys Verus proves
nothing of a `HashMap`'s contents, while a list lets the contracts state
exactly which entry a lookup finds and which entry an eviction drops.
