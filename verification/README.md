# rgb_sequencer

A verified library for driving RGB LEDs through timed color sequences on embedded
systems. All color math is fixed-point integer arithmetic; hardware and clocks are
reached through the `RgbLed`, `TimeSource`, `TimeDuration` and `TimeInstant` traits.
Steps and sequencer slots are stored in `Vec`s kept within the capacity given as a const
parameter (`len <= N` is part of each type's invariant), so the library needs an
allocator.

The library is written in Verus. Its executable functions carry `requires` / `ensures`
contracts, and the properties the library promises as a whole are stated and proved as
public `proof fn`s next to the code they are about. The two calls into the user's own
functions of a function-based sequence (`ColorFn::call`, `TimingFn::call`) are trusted
and promise nothing about what those functions return.

## Layout

- `src/fixed.rs` – Q0.15 progress, easing curves, channel interpolation and scaling,
  with bounds and monotonicity lemmas.
- `src/color.rs`, `src/colors.rs` – the `Rgb` type and HSV conversion.
- `src/types.rs`, `src/time.rs` – transition styles, loop counts, steps, errors and the
  time traits with the millisecond model the contracts are stated in.
- `src/sequence.rs` – sequences, their builder, and a timeline model (`position_at`,
  `color_at_time`, `timing_at_time`) that evaluation is proved against; periodicity,
  completion and interpolation laws.
- `src/sequencer.rs` – the playback state machine, with each transition described by a
  spec predicate (`services_to`, `starts_at`, `resumes_at`, ...) and laws on pausing,
  brightness and drift-free timing. Each operation that reads the clock has a companion
  taking the reading as an argument (`service_at`, `start_at`, `pause_at`, ...) with an
  exact contract.
- `src/collection.rs` – routing commands to several sequencers and aggregating their
  timing hints.
- `src/text.rs` – error message assembly, including decimal formatting of ids.
- `tests/` – scenario tests run against the compiled library.
- `app/` – `Display` / `std::error::Error` adapters for the error types.
