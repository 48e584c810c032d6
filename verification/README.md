# pixelflux

Screen capture for Linux desktops, under X11 or as a Wayland compositor of its own: frames are
taken off the screen, encoded as JPEG or H.264 in software or on a GPU, handed to a consumer, and
optionally recorded to fragmented MP4.

The logic is a library verified with Verus. Every function states what it returns or changes, and
the properties that hold across functions are proved beside them.

- `src/` is the library. The compositor's state and its operations are in `bring_up`, `wayland`,
  `layout`, `lifecycle`, `start`, `command`, `input`, `scene` and `render`, with what they all keep in
  `compositor_laws`; the encode decisions in `pipeline`, `encode_loop`, `encoders`, `csc` and
  `pace`; frame hand-over in `pool`; recording in `recorder` and `recording_sink`; GPU discovery in
  `gpu`, `process` and `nvgpufilter`; wire formats in `bytes`, `pipewire` and `uinput`; settings and
  sessions in `settings`, `session`, `report` and `stats`.
- `app/` is ordinary Rust around it: files, sockets, devices, threads and the Python bindings.
- `tests/` runs the library on concrete values.

What is trusted rather than proved: the colour conversions of the `yuv` crate (`csc`), the
lower-casing of text (`gpu`) and one sort (`recorder::mp4`), each behind a small function that says
what is relied on.
