# stats

Counters for RTP streams and for the RTCP feedback about them, written in Rust and verified with
[Verus](https://github.com/verus-lang/verus).

- `src/` is the verified library. Counters live in a `StatsStore`; recorders in the path of the
  packets write to it, and readers see what is written. `StatsInterceptor` binds recorders to
  streams and hands out readers. `laws.rs` states what holds across functions.
- `app/` puts the library into a chain of asynchronous interceptors: locks, traits, the conversion
  of round trip times to floating point.
- `tests/` runs the library together with the `rtp` and `rtcp` crates.

The library relies on the `rtp` and `rtcp` crates for reading packets. What it assumes of them is
stated next to each call, in `src/wire.rs` and `src/packet.rs`.
