# cyberdeck_tui

The screen logic of a terminal UI for a handheld "cyberdeck": a Meshtastic
LoRa chat over a node's HTTP API, system screens (network, audio,
Bluetooth, display, power, packages, logs), a file browser and editor, an
intelligence-feed dashboard, a city map with weather and a synthetic traffic
overlay, and an assistant chat transcript.

The library in `src/` is written in Verus: its functions carry
`requires`/`ensures` contracts that Verus proves, from the Meshtastic wire
format (LEB128 varints, `ToRadio`/`FromRadio` frames) through the menus'
cursor arithmetic to the text the screens draw.

- `proto`, `lora`, `lora_http`, `lora_screen`, `mesh`, `chat_view`: the
  radio link, its node and chat state, and the chat screens.
- `ui`, `main_menu`, `overworld`, `nav_screens`, `lists`: keys, navigation
  events, menus and list cursors.
- `system_screens`, `views`, `panes`: the system screens' keys and the rows
  they draw.
- `files`, `lines`, `editor`: directory listings, line splitting, the
  editor's read-only gate and save/reload.
- `intel`, `city`, `braille`: the feed dashboard, weather and traffic, and
  the braille dot grid with Bresenham lines.
- `text`, `wrap`, `transcript`: string helpers, word wrapping and the
  assistant transcript.

`app/` is ordinary Rust around the library: terminal drawing with ratatui,
key decoding with crossterm, HTTP with reqwest, file and process work, and
the floating-point formatting and map projection. `tests/` exercises the
library through its public interface.
