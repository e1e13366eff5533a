# rm_monitor

Helpers for installing and patching the Resource Monitor GNOME Shell
extension, with the patching and settings logic verified in Verus.

- `src/` — the verified library. Text is modelled as `Seq<char>`
  (`text.rs`); every patcher states its result as a spec function over that
  model, and the GSettings, device-list, `df`/`nvidia-smi` parsing and
  metadata decisions are specified the same way. Calls into `regex` and
  `serde_json` go through the trusted items in `regex_calls.rs` and
  `settings.rs`. The laws about re-running the patches stand next to the
  patchers they are about: idempotence of the VRAM, stable-width, refresh,
  disk `extension.js` and disk-helper edits on every input they accept, of
  the colour and ethernet-icon patches on unpatched sources, of the
  `containers.js` patch wherever its in-place migrations cannot fire again,
  the upgrade of a drifted ethernet-icon guard or wiring back to the
  current form, compact mode undoing stable mode on the upstream form, and,
  for the process popup, the already-patched form it leaves alone.
  `style_runs.rs` holds the argument that the unit-style normalisation
  settles in one pass, keeps the container marker, and absorbs the style
  line that re-running the unit migration doubles.
- `patch_disk.rs` also plans the three-file disk patch (which files to
  write, and the closing message) before `app/` writes anything.
- `patch_metadata.rs` parses `metadata.json` through `serde_json` and
  decides both edits; `app/` rewrites the document.
- `tests/` — tests run against the compiled library.
- `app/` — the `rm-monitor` command line: file and process I/O, logging,
  JSON document handling for `metadata.json`, and the floating-point colour
  arithmetic, calling the library for every decision.
