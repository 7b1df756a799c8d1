# otip

The verified core of Otip, a video player that asks Gemini which scenes to
skip and then skips them.

- `src/` is the library, written in Verus: the reply parsers (timestamps,
  ranges, JSON skip lists), the canonical form of skip ranges, the video
  timeline with its skip zones, the scan pipeline's decisions (sampling
  step, batching, retry policy, grid compositing, request texts), the
  library player's state machine, the desktop player's state and message
  loop with its keyboard shortcuts, the per-video timeline registry and the
  labels the screens show. Each public
  function carries a contract; the `law_*` proof functions state the
  properties that hold across calls.
- `tests/` runs the library on concrete values.
- `app/` is a small command-line program around it: folder listing,
  ffprobe/ffmpeg frame extraction, the HTTP requests, the configuration
  file, and the floating-point figures (progress, playback speed, the
  drawn timeline bar). `otip moderate VIDEO` runs the grid moderation and
  then plays the video through the player's state machine, printing where
  auto-skip jumps.
