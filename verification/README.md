# lcn_core

The logic of the Le Chat Noir radio player for Linux, verified with Verus: endpoints
and timings, content models, tolerant parsers of the station's feeds (JSON and an
RFC 4180 CSV history), the on-air state machine, the capped reconnection policy and the
player's decision core, the station state with its update policy, the settings file
format, the theme palette, and what each screen shows.

- `src/` — the verified library.
- `tests/` — its tests.
- `app/` — the GTK4/libadwaita application around it (GStreamer audio, MPRIS, network
  polling, files, widgets).
