# argb_core

Thermal-reactive ARGB lighting: the verified core of a background daemon
that reads CPU/GPU temperatures from MSI Afterburner, renders animation
frames and streams them to OpenRGB over its SDK socket.

`src/` is a Verus library. Every function in it is proved against its
contract, except the handful of `#[verifier::external_body]` wrappers
around `serde_json` and two `std` string functions (`str::trim`,
`String::from_utf8_lossy`): their contracts are trusted, and their doc
comments say what each claims of the call it makes.

| Module | What it holds |
|---|---|
| `wire` | little-endian encodings and their read-back lemmas |
| `openrgb` | the OpenRGB SDK packet formats: headers, mode/zone/LED payloads, the controller-description parser, Direct-mode lookup |
| `zones` | detected zones, legacy wildcard matching, and the merge of saved zones with a fresh detection (stable, never deletes) |
| `render_map` | which detected zone each enabled entry drives, header resizes, the Direct-mode guard, frame de-duplication, sensor staleness |
| `look` | which effect a zone shows (custom by name, override, global, idle) |
| `settings` | effects, sources, colors and per-zone configuration |
| `document` | the settings file as JSON and its version 1 → 2 migration (idempotent) |
| `presets` | the built-in one-click looks |
| `sensors` | MSI Afterburner's shared-memory layout and which reading each entry feeds |
| `gui`, `editor` | the configurator's decisions: tabs, setup banner, tray commands, Fix My RGB, zone editors, live preview rows |
| `win` | UTF-16 strings for the Win32 API |
| `text` | string helpers |

`app/` is the daemon program: sockets, files, the Win32 calls, the serde
copies of the settings types and the floating-point renderer, built on the
library.
