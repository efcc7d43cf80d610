# PolySaver core, verified

PolySaver downloads video and audio with yt-dlp and FFmpeg. This crate holds
its domain rules and the decisions of its download pipeline, written in Verus
and proved against their contracts.

- `src/` is the verified library: formats and presets, settings, media URLs,
  file names, path resolution, download jobs and their lifecycle, the job
  registry and the pipeline steps, no-clobber publishing, the concurrency
  limiter's bookkeeping, the binary cache, the history journal, and what the
  yt-dlp and FFmpeg adapters build and read (command lines, progress lines,
  metadata, probe reports).
- `tests/` runs the library on concrete values.
- `app/` is the asynchronous shell: processes, files, channels, the download
  loop, and the serialized forms of the library's types.

Calls into `url`, `uuid`, `serde_json` and the clock go through a few trusted
wrappers in `src/`, each documented where it stands.
