# freemix_daemon

The decisions of a live video mixing daemon, written in Verus: what its projects show and play,
how its sources are kept filled, how its clients are served and how its status is told.

- `src/` is the library. Everything in it is verified. Decoders, compositors, synchronizers,
  mixers, sockets and windows work outside of it: the library says what they are asked for, and
  takes their answers as plain values.
  - Projects: `project_plan`, `scene_graph`, `scene_execution`, `audio_route`, `plan_laws`.
  - Pictures: `source`, `source_registry`, `source_opening`, `source_playback`,
    `playback_cycle`, `playback_sending`, `ring_laws`, `render`, `render_cycle`, `render_laws`,
    `frame_laws`.
  - Sound: `audio_limits`, `audio_timing`, `audio_source`, `audio_preflight`, `audio_setup`,
    `audio_opening`, `audio_project`, `audio_master`, `audio_service`, `audio_sending`,
    `audio_mix`, `audio_render`, `audio_playback`, `audio_cycle`, `audio_laws`.
  - Changes of Stingers: `stinger_mutation`.
  - Clients: `session_record`, `session_peer`, `session_flow`, `session_write`, `session_pass`.
  - The program's window: `monitor`, `program_surface`, `presentation`.
  - Status and browsers: `access_token`, `request_head`, `status_http`, `status`, `web`.
  - Words and numbers: `messages`, `text`, `sums`, `ordered`, `model`.
- `tests/` runs the library.
- `app/` holds threads, sockets, windows and floating-point samples. It is not verified.

A public proof function states a law: its doc comment says the law in words, and Verus proves it
over the same models that the contracts of the executable functions speak of.
