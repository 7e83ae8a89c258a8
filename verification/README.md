# cursor2api

The verified core of the cursor2api Windows Console, which runs a local
Bridge (the `cursor-api-proxy` sidecar behind a loopback Bound Port) for
Callers of the Cursor API.

- `src/` is the library, verified with Verus: HTTP head handling for the
  Bound Port forwarder (`http_head`), secret masking (`redact`), Request
  Summaries (`records`), the Release check (`release`), the first-run wizard
  and Autostart decisions (`setup`), `PATH` search (`path_search`), the
  sidecar's environment, health probe and port scan (`sidecar`), the Bridge
  Token and Cursor API Key stores (`stores`), the Bridge runtime and its Start
  state machine (`runtime`), the Console's views (`console`) and the portable
  Release zip's rules (`pack`).
- `app/` is the program around it: file, process and network I/O, the
  forwarder threads, JSON files in App Data, the GitHub download and the zip
  writer. `cursor2api bridge` runs the Bridge without a window;
  `cursor2api --console .. --node .. --bridge-cli .. --readme .. --out-dir ..`
  packs the Release zip.
- `tests/` exercises the library from outside.
