# LiPlayer Pro

A terminal music player for high-resolution audio, with a C interface for
programs that embed it. The decisions of the player are a library written in
Verus, each function with a contract that Verus proves; the program around it
does the input and output.

## Layout

- `src/` — the verified library `liplayerpro`:
  - `types` — tracks, screens, keys and events of the interface;
  - `app` — the interface state: list pane, search, screen stack, playlist,
    play/pause/stop, media-key commands; every method returns the work for
    the host (`Effect`) and keeps the state well formed;
  - `player_core` — the embeddable player's state machine and its laws;
  - `library` — which files are indexed, how stored documents become tracks,
    title order, the category browser;
  - `json`, `scanner` — the prober's JSON output read into a report, and
    track metadata from that report (tags, rates, DSD);
  - `engine` — the audio engine's command step, sample decoding, output
    steps and position arithmetic;
  - `lyrics` — `.lrc` lyrics;
  - `config`, `theme` — paths, named colours, `#RRGGBB` colours;
  - `ui` — the texts of the header, status line, progress bar and lyrics pane;
  - `textnum`, `sorting` — numbers in text, a verified stable sort.
- `tests/` — tests of the library on concrete values.
- `app/` — the terminal program (ratatui, crossterm), the audio engine's
  threads (ffmpeg, ALSA), the tantivy index, the theme file watcher, the
  system media controls and the C interface (`liplayer_*`).
