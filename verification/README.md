# dsp_core

Verified integer core of a sonar simulator's acoustic DSP engine, written in
Verus.

The engine synthesises ship noise, ocean ambient noise, propagation and
delay-and-sum beamforming in floating point. Verus cannot reason about
floating point, so that code stands in `app/` (ordinary Rust), and everything
it decides on integers and bytes stands in `src/` with contracts:

- `src/ring.rs` — slots of fractional-delay reads from circular histories,
  independent of the width of `usize`, and the law that a read taps the
  samples written `whole` and `whole + 1` steps before the newest.
- `src/source/mod.rs` — the xorshift64 step driving every noise source (a
  permutation of the 64-bit states that never reaches zero from a non-zero
  seed) and the per-band seeds (distinct for distinct bands).
- `src/source/merchant.rs` — merchant profile and tonal overlay selection by
  host code, profile constants in exact decimal units, and the measured
  overlay's line table.
- `src/analysis.rs` — the BASS scan schedule: one scan every 16 samples,
  counted per read window.
- `src/bit_reverse.rs` — the FFT's bit-reversal reordering, for any `Copy`
  element type.
- `src/offline.rs` — the IEEE-float mono WAV container (with a read-back
  law), the FNV-1a 64 fingerprint and the zero-crossing count of a block.
