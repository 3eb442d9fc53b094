# onebox-sysproxy-rs

Cross-platform system proxy configuration, as a Verus-verified library and a
small command-line tool around it.

## Layout

- `src/` — the library, verified by Verus.
  - `lib.rs` — `Sysproxy`, `Autoproxy`, `AppContainer`, `Error` and their views.
  - `text.rs` — character-sequence helpers (splitting, lines, trimming, searching,
    decimal numbers) with their specifications.
  - `utils.rs` — IPv4 CIDR blocks to wildcard patterns, with the law that the
    patterns cover exactly the block.
  - `macos.rs` — reading `networksetup` and `route` output.
  - `networksetup.rs` — the `networksetup` argument lists and each macOS operation
    as a state machine: it asks for a command to be run and is resumed with the
    command's outcome.
  - `session.rs` — commands, outcomes, steps and the check of a finished
    `networksetup` run.
  - `windows.rs` — WinINet proxy-server strings, the settings that reading
    yields and the options that writing applies.
  - `cli.rs` — the decisions of the command-line tool: server arguments, the
    changes each command makes, and the UWP exemption lists.
- `app/` — the tool itself: argument parsing, running commands, the WinINet and
  network-isolation system calls on Windows, JSON import and export. Which
  WinINet calls are made and in what order (LAN first, then each RAS connection;
  set, notify, refresh; the flags option to query) is decided in `windows.rs`.
- `tests/` — tests of the library on concrete values.

Each operation that talks to the system is split the same way: the library
decides what to run and what the answers mean, and `app/` runs it.

## Notes

- The Windows system calls use the `windows-sys` crate, the raw bindings from the
  same project as the `windows` crate: the calls need only the plain function
  and type declarations, and `windows-sys` brings them without the wrapper layer.
- The UWP loopback-exemption commands (`uwp-get`, `uwp-set`) are implemented in
  `app/uwp.rs` with the network-isolation API: it lists the app containers and
  the exempted SIDs, and replaces the exempted set. Marking which containers are
  exempted (`cli::with_exemptions`) and collecting the SIDs to exempt
  (`cli::exempted_sids`) are verified in the library.
- Linux (GNOME/KDE) settings are not implemented.
