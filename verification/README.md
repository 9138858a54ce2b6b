# locaryn-plugin-image

The image-generation extension of Locaryn: model discovery, companion
files, downloads, the stable-diffusion.cpp command line and region edits,
served over MCP on stdio.

## Layout

- `src/` — the library, verified with Verus. Every public function states
  its result in its `ensures`; the laws the extension promises (companion
  files are never listed, a failed install removes only what it downloaded,
  extraction never leaves `bin/`, a render's command line follows the
  request, base64 and colours read back, ...) are public proof functions.
  - `models`, `companions`, `catalogue`, `order`: what a weights file is,
    which VAE and text encoders it needs, and the sorted model listing.
  - `paths`, `layout`: paths as `std::path` reads them, and the places
    searched for models, the engine and Python.
  - `engine`, `generation`: render settings and the engine's arguments.
  - `sources`, `install`: download plans, file names, the install state
    machine and runtime archive extraction.
  - `region`, `script`, `headers`, `diagnostics`, `data_url`: region edits,
    the Python script, image headers, error summaries and inline images.
  - `mcp`: the methods and tools the server answers.
- `app/` — the MCP server: environment, file system, network, processes,
  JSON, and the floating-point settings (guidance, strength, video memory).
- `tests/` — tests of the library on concrete values.
