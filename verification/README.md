# crypto_tracker

A tracker that watches the USDT pairs of an exchange for runs of rising
closing prices and sends a Telegram alert when a run starts.

- `src/` is the verified library: candle intervals (`interval`), decimal
  parsing and padding (`decimal`), string order and equality (`text`),
  rolling windows of closes (`window`), streak search (`streak`),
  edge-triggered alerts (`alerts`), symbol selection (`symbols`), stream
  names and batches (`stream`), alert text (`message`) and command line
  options (`config`).
- `app/` is the program around it: HTTP and WebSocket I/O, the clock, the
  environment and files, JSON (de)serialisation, and the floating-point
  price arithmetic.
- `tests/` runs the library on concrete values.
