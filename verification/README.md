# anica_core

The core of a video editor: a timeline of clips, sounds, subtitles, effect layers and marked
stretches, the edits on it with their history, and the commands that export it.

- `src/` is the library. Every function states what it does over a mathematical view of the data
  (`GlobalState@`, `Clip@`, ...) and is proved to do it. The public proof functions state what
  holds of several functions together.
- `tests/` runs the library on concrete values.
- `app/` is ordinary Rust around it: files, programs and devices, and floating-point arithmetic.

## How values are modelled

- A length of time is a number of nanoseconds (`time::Duration`).
- A single-precision number is its bit pattern (`scalar::Scalar`), a double-precision one too
  (`double::Real`). They are compared, clamped and rounded here; other arithmetic on them is handed in, and
  numbers that go into a filter are handed in as words (`ClipWords`, `ScriptWords`, ...).
- Text is a sequence of characters, a JSON document a tree (`json::JsonView`).

## Modules

- Values: `time`, `scalar`, `double`, `rounding`, `decimals`, `turns`, `text`, `paths`, `json`,
  `json_edit`, `json_laws`, `json_text`, `json_writing`, `order`, `lists`, `copying`.
- The timeline: `clip`, `effect`, `subtitle`, `layer`, `tracks`, `state`, `modes`, `background`,
  `settings`, `errors`.
- Edits: `placing`, `moves`, `razor`, `cuts`, `ripple`, `ripple_laws`, `time_ranges`, `removal`,
  `duplicates`, `links`, `anchors`, `repair`, `grouping`, `lanes`, `navigation`, `srt`, `subtitle_edits`,
  `semantic`, `semantic_laws`, `layer_edits`, `media_pool`, `caches`.
- Looks: `clip_effects`, `keyframes`, `masks`, `selected`, `transitions`, `trims`,
  `dissolve_edges`.
- Export: `export_settings`, `export_checks`, `filter_words`, `script_plan`, `export_layers`,
  `export_effects`, `export_clip`, `export_graph`, `export_ready`, `export_gpu`, `export_run`,
  `export_session`, `export_errors`.
- Tools: `media_paths`, `media_tools`, `tool_places`, `runtime_settings`, `audio_recording`.
