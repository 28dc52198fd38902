//! Core logic of a timeline video editor.
pub mod anchors;
pub mod audio_recording;
pub mod background;
pub mod caches;
pub mod clip;
pub mod clip_effects;
pub mod copying;
pub mod cuts;
pub mod decimals;
pub mod dissolve_edges;
pub mod double;
pub mod duplicates;
pub mod edit_laws;
pub mod effect;
pub mod errors;
pub mod export_checks;
pub mod export_clip;
pub mod export_effects;
pub mod export_errors;
pub mod export_gpu;
pub mod export_graph;
pub mod export_laws;
pub mod export_layers;
pub mod export_ready;
pub mod export_run;
pub mod export_session;
pub mod export_settings;
pub mod filter_laws;
pub mod filter_words;
pub mod frame_laws;
pub mod graph_laws;
pub mod grouping;
pub mod json;
pub mod json_edit;
pub mod json_laws;
pub mod json_text;
pub mod json_writing;
pub mod keyframes;
pub mod lanes;
pub mod layer;
pub mod layer_edits;
pub mod layer_laws;
pub mod links;
pub mod lists;
pub mod look_laws;
pub mod masks;
pub mod media_paths;
pub mod media_pool;
pub mod media_tools;
pub mod modes;
pub mod move_laws;
pub mod moves;
pub mod navigation;
pub mod order;
pub mod paths;
pub mod placing;
pub mod pool_laws;
pub mod razor;
pub mod razor_laws;
pub mod removal;
pub mod repair;
pub mod ripple;
pub mod ripple_laws;
pub mod rounding;
pub mod runtime_settings;
pub mod scalar;
pub mod script_laws;
pub mod script_plan;
pub mod selected;
pub mod semantic;
pub mod semantic_laws;
pub mod settings;
pub mod srt;
pub mod state;
pub mod stretch_laws;
pub mod subtitle;
pub mod subtitle_edits;
pub mod text;
pub mod time;
pub mod time_ranges;
pub mod tool_places;
pub mod tracks;
pub mod transition_laws;
pub mod transitions;
pub mod trims;
pub mod turns;
