# anatro-rs

Finds where a recurring intro or outro starts in a set of media files: a reference
segment is fingerprinted, located coarsely in each file by the Hamming error of its
Chromaprint fingerprint, then refined to the sample by cross-correlation.

Layout:

- `src/` — the library, verified with Verus: the fingerprint matcher, the scan's
  decisions (reference resolution and cutting, thresholds, search windows), the
  processing pipeline's typestate, the KV-FS cache keys and record schema, the
  preset registry, WAV encoding, and the integer logic of the decoding adapters
  (timestamp and range parsing, track selection, packet and frame windows).
- `app/` — the command-line program around it: argument handling, file I/O,
  decoding and resampling with Symphonia and rubato, Chromaprint and
  floating-point cross-correlation, the worker pool and progress display.
- `tests/` — tests of the library on concrete values.
