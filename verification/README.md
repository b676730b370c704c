# epson-watchdog

A launchd agent for macOS that keeps the CUPS queue of an Epson L3150 (or a
similar Wi-Fi printer) usable: it watches for the printer on mDNS and, when
the printer is back on the network while its queue is disabled or rejects
jobs, runs `cupsenable` / `cupsaccept`.

The decisions are a library verified with Verus; the program around it only
performs the I/O that the library asks for.

## Layout

- `src/text.rs` — a `Seq<char>` model of the string operations used
  (`lines`, `find`, `contains`, `trim`, `replace`, …) and verified
  implementations of them.
- `src/cups.rs` — reading `lpstat` and `lpinfo` output (queue state,
  accepting, device URI, PPD model) and the CUPS command lines.
- `src/discovery.rs` — the printer as mDNS shows it, its `dnssd://` URI, and
  the mDNS search as a state machine (`PrinterSearch`).
- `src/config.rs` — the settings, their defaults, paths and status report.
- `src/watchdog.rs` — the watchdog state machine (`watch_tick`).
- `src/installer.rs` — the launchd plist, file locations, and the install and
  uninstall plans as state machines (`Installer`, `Uninstaller`).
- `app/` — the command-line program: CLI, TOML settings file, running the
  CUPS tools, mDNS browsing, the async poll loop.
- `tests/` — tests of the library.

Each state machine takes the outcome of the last outside operation as an
event and returns the next operation as an action; its contract is a spec
function over the machine's model, and the laws of each machine are proof
functions beside it.
