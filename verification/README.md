# recallai

A video recomposer and its job service. A raw video (a 12-byte big-endian header of width,
height and frame count, then frames of three bytes per pixel) is turned into a new video by
compositing rectangles of each source frame into a target frame, following a rules
document; a small web service queues such jobs and reports on them.

## Layout

- `src/` — the verified library (Verus):
  - `util`, `spec`, `meta`, `data`: header encoding and decoding, size checks, handles;
  - `rules`: rules documents, compositing order, dropping hidden opaque rules, and the
    per-frame plan of rows to blend, and compositing a frame by that plan;
  - `render`: the frame a plan composites, and that dropping hidden opaque rules keeps it;
  - `strategy`, `transcoder`: choosing a pipeline, buffer pools, putting frames back in
    order, filling frames from a stream of chunks, the reader's and writer's decisions;
  - `controller`: the job queue;
  - `ids`: job identifiers and their text;
  - `web`: requests, replies and the handlers' logic of the job service;
  - `inspect`: turning stored frames into JPEG files;
  - `cli`: the decisions of the command line.
- `tests/` — tests of the library.
- `app/` — the programs: the transcoding command, the web service, the frame extractor;
  they do the file, network and thread work and the floating-point blending.
