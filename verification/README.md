# music_lights

Drives Wi-Fi colour bulbs from the sound that is playing: bulbs are found by
SSDP discovery, put into music mode (they connect back to a local listener),
and every completed window of captured audio moves the colour wheel and sets
the brightness from the filtered volume.

- `src/` is the verified library:
  - `color` — RGB colour, packed `0xRRGGBB` value, colour wheel.
  - `filter` — the fast integer exponential filter with pass modes.
  - `analyzer` — the volume analyser (sampling, envelope, rescaling, pulses).
  - `capture` — the light show: analyser plus wheel position.
  - `response` — line splitting and header lookup for discovery answers.
  - `lightbulb` — the bulb model, announcement parsing, command framing and
    connection decisions.
  - `provider` — ping verdicts and the registry of known bulbs.
  - `bytes` — byte-string helpers and decimal formatting.
  - `rng` — the random music-mode port offset (trusted calls into `rand`).
- `app/` is the program: sockets, timeouts and tasks (tokio), pinging
  (winping), audio capture (cpal) and the clock.
- `tests/` runs the library on concrete values.
