# momo

Live video splitter/router: one input (mock colour bars, DeckLink or UVC)
is transformed per output (crop → scale → flip) and previewed in a web UI.

- `src/` is the verified library (Verus): pixel-format transforms and their
  laws, the preview scaler and NV12 conversion, colour-bar generation,
  configuration validation, DeckLink code tables, the pipeline's control
  state machine and the web front end's decisions. JPEG encoding goes
  through the `image` crate behind one trusted wrapper.
- `app/` is the program around it: command line, JSON (de)serialisation,
  file I/O, the axum server, threads and channels that move frames, and the
  floating-point UYVY → RGB conversion.
- `tests/` exercises the library on concrete values.
