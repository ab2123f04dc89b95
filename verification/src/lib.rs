//! The decisions of a live video mixing daemon: what its projects show and play, how its
//! sources are kept filled, how its clients are served and how its status is told.
//!
//! Decoders, compositors, mixers, sockets and windows do their work outside of this library.
//! It says what they are asked for, and what follows from their answers.

pub mod access_token;
pub mod audio_cycle;
pub mod audio_laws;
pub mod audio_limits;
pub mod audio_master;
pub mod audio_mix;
pub mod audio_opening;
pub mod audio_playback;
pub mod audio_preflight;
pub mod audio_project;
pub mod audio_render;
pub mod audio_route;
pub mod audio_sending;
pub mod audio_service;
pub mod audio_setup;
pub mod audio_source;
pub mod audio_timing;
pub mod cycle_laws;
pub mod draft_laws;
pub mod frame_laws;
pub mod listener_laws;
pub mod messages;
pub mod hearing_laws;
pub mod lane_laws;
pub mod mix_laws;
pub mod model;
pub mod monitor;
pub mod ordered;
pub mod picture_laws;
pub mod plan_laws;
pub mod playback_cycle;
pub mod playback_laws;
pub mod playback_sending;
pub mod presentation;
pub mod presentation_laws;
pub mod program_laws;
pub mod program_surface;
pub mod project_plan;
pub mod render;
pub mod render_cycle;
pub mod render_laws;
pub mod request_head;
pub mod ring_laws;
pub mod scene_execution;
pub mod scene_graph;
pub mod scene_laws;
pub mod service_laws;
pub mod session_flow;
pub mod session_laws;
pub mod session_pass;
pub mod session_peer;
pub mod session_record;
pub mod session_write;
pub mod source;
pub mod source_laws;
pub mod source_opening;
pub mod source_playback;
pub mod source_registry;
pub mod status;
pub mod status_http;
pub mod stinger_mutation;
pub mod sums;
pub mod surface_laws;
pub mod text;
pub mod web;
