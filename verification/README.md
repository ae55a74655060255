# unifand

A fan-control daemon for a Lian Li Uni hub, written in Rust and verified with
Verus. It follows the hotter of CPU and GPU along a fan curve, limits how fast
the duty may move, colours the LEDs by duty or by alarm, and serves its state
to Prometheus.

## Layout

- `src/` is the library. Every function in it is verified against its
  `requires` and `ensures`.
  - `rounding`, `binary64`: double-precision arithmetic on integers, each
    operation stated as the exact result rounded to 53 bits.
  - `text`, `ordered`, `report`: decimal and hexadecimal text, a sorted map,
    and text with numbers that the printer fills in.
  - `config`, `validation`, `diagnostics`: the settings, the first error of a
    refused configuration, and its messages.
  - `curve`, `signals`, `sensors`, `probe`: interpolation and slew limiting,
    conditioning and fusing of GPU signals, and what a driver's answers mean.
  - `rgb`, `hid`, `alarm`: LED packets, hub packets, and the alarm ladder.
  - `hub_wait`, `control`, `daemon`, `tick`, `metrics`: the wait for the hub and
    one tick of the daemon as machines of requests and events, and the rendered
    metrics.
  - `*_laws`: what holds across functions, as proof functions named `law_*`.
- `app/` is the program around the library: files, devices, the driver, the
  HTTP server, signals, and the parsing of TOML.
- `tests/` runs the library.

## Trusted

Four functions call outside code, and their contracts are believed: `quoted` in
`text`, `reasons_contain` in `sensors`, `names_of_reasons` in `probe`, and
`clock_secs` in `metrics`. Each says in its comment what it claims.
