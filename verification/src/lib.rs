//! Sh4derJockey, a tool for shader coding and live performances: the
//! pipeline description, shader preprocessing, MIDI bindings, audio input
//! buffers and the decisions of the main loop, with their contracts.
pub mod ringbuffer;
pub mod text;
pub mod interleave;
pub mod directive;
pub mod preprocess;
pub mod yaml;
pub mod texture;
pub mod beatsync;
pub mod config;
pub mod midi;
pub mod audio;
pub mod stage;
pub mod pipeline;
pub mod cache;
pub mod events;
pub mod uniform;
pub mod ndi;
pub mod imagedata;
pub mod viewport;
pub mod messages;
