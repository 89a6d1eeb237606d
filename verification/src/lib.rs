//! The decision logic of a Spotify Connect endpoint that is embedded in a
//! Windows application: audio backends, the audio cache, playback state,
//! configuration and the application data requests.
pub mod app_data;
pub mod audio_key;
pub mod backend;
pub mod cache;
pub mod cache_path;
pub mod config;
pub mod effects;
pub mod encoding;
pub mod errors;
pub mod events;
pub mod ffi_records;
pub mod ffi_types;
pub mod ids;
pub mod json;
pub mod logger;
pub mod lyrics;
pub mod offline;
pub mod order;
pub mod path_reading;
pub mod payloads;
pub mod persistence;
pub mod ring;
pub mod runner;
pub mod sink;
pub mod size_limiter;
pub mod text;
pub mod uris;
pub mod wasapi;
pub mod windows_native;
pub mod xaudio2;
pub mod xaudio2_queue;
