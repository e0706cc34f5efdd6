//! Adapters between the domain and the media libraries: the decisions they take, verified;
//! the library calls themselves stand outside this crate.
pub mod chromaprint;
pub mod cross_correlate_adapter;
pub mod ffmpeg;
pub mod symphonia_adapter;
