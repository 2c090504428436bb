# compositor

A small compositor backend for DRM/KMS: it picks a display pipeline, agrees with
the renderer on buffer layouts, draws to a ring of three buffers, and shows them
one after another.

- `src/` is the library: all decisions, with contracts that Verus proves. It does
  no input or output; what it is told and what it asks for are plain values.
  - `select`: connector, CRTC, mode and plane.
  - `format_modifier`, `modifiers`: the `IN_FORMATS` blob, and the layouts that a
    plane and a renderer share.
  - `drmx`: plain descriptions of what DRM offers and of what it is asked for.
  - `scanout`, `output`: buffers, and the order in which they are drawn and shown.
  - `cpu`, `vulkan`: the two renderers.
  - `utils`, `skia`, `text`, `search`: small helpers.
- `tests/` runs the library on concrete values.
- `app/` is the program: it talks to the kernel, to Vulkan and to Skia, and does
  what the library asks for.
