# asnap

A zero-UI, hotkey-driven screen-capture daemon: Alt + `[` takes a
screenshot (a stitched long one when the user scrolls while selecting),
Alt + `]` toggles a region recording, Alt + `\` recognises the text in a
region. Output lands on the Desktop as `YYMMDD_HHMMSS.<ext>`.

The decisions and data handling are a Verus-verified library under `src/`:

- `text` — trimming, splitting, `i32` parsing and decimal formatting, each
  stated over `Seq<char>`.
- `region` — reading the rectangle a selector prints (`x,y,w,h` or
  `x,y wxh`) and writing it back for the capture tools; reading back what
  was written gives the region again.
- `stitch` — the overlap search (sampled mean squared error) between
  consecutive frames and the stitched image, pixel by pixel.
- `session` — the scrolling-screenshot state machine (wait, capture while
  scrolling, stop when idle or at the frame limit).
- `hotkeys` — what each input event asks of the daemon.
- `recorder` — the grace period for stopping a recorder.
- `commands` — the command lines and scripts for each platform's tools.
- `naming` — output and temporary file names.

`app/` is the daemon itself: the global key listener, the processes, the
clipboard, image decoding and encoding, and files.
