# image_processor

A command-line image processor that loads a PNG, hands its RGBA8 pixels to a
plugin (mirror or blur) loaded at run time, and saves the result.

- `src/` is the verified library (Verus):
  - `rgba.rs`: pixel layout of RGBA8 buffers, the size check shared by the plugins;
  - `mirror_plugin.rs`: horizontal and vertical flips, with the laws that each
    flip undoes itself and that both together turn the image by half a turn;
  - `blur_plugin.rs`: the circular blur (window, distance test, addressing,
    alpha channel), parameterised by the floating-point blending of samples;
  - `cli.rs`: arguments, their validation, plugin library naming;
  - `plugin_loader.rs`: the buffer-size check before a plugin call;
  - `error.rs`: the error type.
- `app/` is the program around it: argument parsing, file and image I/O,
  dynamic loading of plugins, the plugins' C entry points and the
  floating-point blending of the blur.
- `tests/` exercises the library.
