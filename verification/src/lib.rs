//! Intro and outro boundary detection for episodic media by acoustic fingerprints:
//! the fingerprint matching, the cache keys and records, the WAV encoding, and the
//! timestamp, range, track and frame decisions of the media adapters.
pub mod domain;
pub mod infrastructure;
pub mod text;
