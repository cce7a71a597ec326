# pico2_uac1_loopback

A USB Audio Class 1.0 stereo loopback device for the Raspberry Pi Pico 2,
and a Windows tool that checks the loopback is bit-perfect. The logic of
both is a library proved with Verus.

Layout:

- `src/` — the verified library.
  - `audio.rs`: the packed two-direction format register and the
    fractional packet clock of the single-queue loopback.
  - `pcm.rs`: the format table (widths, rates) and everything derived from
    it: alternate settings, queue indices, packet and descriptor sizes.
  - `streams.rs`: the per-(format, rate) packet queues (heapless deques),
    OUT delivery, IN packet choice and the silence clock.
  - `control.rs`: Sampling Frequency Control requests and alternate-setting
    selection.
  - `descriptors.rs`: the class-specific descriptor bodies.
  - `diag.rs`, `diagnostics.rs`: fallback counters and the loss-LED hold.
  - `tasks.rs`: the decisions of the single-queue OUT and IN tasks.
  - `check/`: the host checker — configuration, test pattern, stream
    alignment and comparison, WAV sample decoding, endpoint selection, the
    shared-mode format blob and the pure parts of the render and capture
    loops.
- `tests/` — tests of the library.
- `app/` — the programs around it: the checker's command line, WASAPI and
  COM calls, threads and file output, and the embassy-usb glue of the
  firmware (control handler, rate watches, endpoint tasks).
