# ScreenLite

A screen recorder for Windows: it captures a display or a part of it at a constant frame rate,
mixes what the system plays with the microphone, and writes an MP4 file. Its logic is a library
whose behaviour is stated in contracts and proved with Verus.

## Layout

- `src/` is the library. It holds every rule and every computation:
  - `time`, `scheduler`: clocks, slots, and the one conversion from capture time to media time.
  - `convert`, `share`: BGRA to NV12, regions of the display, selections in shares of it.
  - `audio`: sample formats, gains, endpoints, the grid of 20 ms slots, the mixer.
  - `encoder`: stream descriptions, the set-up sequence of the file writer, plane copies.
  - `engine`: the tick loop, the audio loop, the writer, the course of a recording, its counters.
  - `channel`: the bounded queues between them, with a ghost log of what was asked of each.
  - `capture`: displays, windows, captured frames, the graphics device.
  - `disk`, `mf`, `verify`, `error`, `text`: disk space, the media runtime, reading files back,
    error classes, texts.
  - `shell`: the commands and the queue of the user interface, the frameless window, settings,
    the progress poller, the command line.
- `app/` is the program around it: calls into the system, threads, the user interface. It asks
  the library what to do and does it.
- `tests/` runs the library.

Gains, device samples and shares of a display are floating point numbers. The library holds them as
bit patterns and computes with exact integer arithmetic, rounded where the hardware rounds.
