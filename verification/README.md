# tauri_plugins

A verified library for two desktop services:

- **net watcher**: reads the host's network interfaces, checks whether the internet is
  reachable (and whether a captive portal stands in the way), probes configured HTTP targets
  on an adaptive schedule, scores their quality over a rolling window, and publishes snapshots
  with the fields that changed;
- **screen capture**: describes capture sources and options, keeps the latest pending frame,
  validates and blends annotation documents, and decides how the share border follows the
  shared window on macOS and Windows.

## Layout

- `src/`: the verified library. Every function carries its contract; the laws that span
  several calls stand as public proof functions (`lemma_*`).
  - `session.rs` holds the decisions of the watcher's run loop (`WatcherSession`): what a read
    of the network resets, when the internet is checked, which targets are suspended or due,
    and what each snapshot reports.
  - `outside.rs` holds the few calls into other crates (`url`, `uuid`, `chrono`) and std text
    decoding, each with the contract that the call's documentation supports.
- `tests/`: ordinary Rust tests of the library.
- `app/`: the runtime around it: the tokio loop and HTTP prober, reading interfaces with
  `get_if_addrs`, serde forms of the library's types, the asynchronous capture interfaces, and
  the floating-point stroke geometry of annotations.
