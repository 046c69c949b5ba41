# sleuth

The logic of the Unchained server plugin, written in Verus: each function
carries a `requires` / `ensures` contract that Verus proves.

## Layout

- `src/` — the verified library.
  - `text` — character-level helpers (trimming, splitting, decimal numerals,
    ordering of texts) and the few trusted calls into `std` they rest on.
  - `cli_args`, `ini` — the command line: `-ini:` overrides, UE-style flag
    normalisation, server detection.
  - `commands`, `command_queue` — console command dispatch, help texts and the
    queue of console lines.
  - `chat_type`, `chat_filter`, `notifications`, `responses`, `herald`,
    `dashboard`, `map_vote` (map votes and the vote module), `duel`, `discord_modules`, `discord_config` — the
    chat and Discord side: chat kinds, message parsing and censoring, the bot's
    modules and their settings.
  - `mods`, `build_info`, `registration` — mod bookkeeping, build
    descriptions with their offsets, and the server-browser registration
    decisions (URLs, heartbeat periods, back-off).
  - `syslog` — log filtering and syslog line formatting.
  - `ue`, `engine` — the engine's containers and object table (`TArray`,
    the chunked object array, weak pointers) and game-side parameters.
  - `keyed` — the map recorded by a list of (key, value) pairs.
- `tests/` — tests run against the compiled library.
- `app/` — ordinary Rust around the library: clap parsing, JSON files,
  `log` adapters with the per-thread log buffer, the duel tracker's damage
  totals and clock, and the vote ratios (floating point).

The outside crates used inside the library (`regex`, `censor`, `rand`,
`widestring`) and a few functions of `std` are reached through small trusted
wrappers; each contract states, or names, what the call returns.
