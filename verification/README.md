# edge_ascii

Converts images and videos to ascii art with edge detection.

Each cell of the picture becomes one character: an edge character where the
brightness changes along a clear direction, else a fill character of about the
same brightness. The characters are drawn over the colours of the picture.

## Layout

- `src/` is the library. Everything in it is verified with Verus.
  - `charset`: the characters.
  - `font_renderer`: drawing the characters into an atlas, with FreeType.
  - `frame`: pixel buffers, their conversion, Sobel gradients, cropping.
  - `structure_tensor`: sums of gradient products, per quadrant of a cell.
  - `algorithm`: measuring cells, choosing characters, drawing, text output.
  - `ffmpeg_decoder`, `ffmpeg_encoder`: the command lines of FFmpeg, which decoder
    and encoder to use, and the course of a decoding or encoding run.
  - `search`, `util`: trying candidates, waiting for child processes.
  - `pipeline`: sizes, threads, and the order of frames.
  - `text`, `platform`: what the others need.
- `app/` is the program: files, processes, threads, and floating-point analysis.
- `tests/` holds the tests of the library.

## Conventions

A function named `law_..` states a property of the library as a whole. Names that
start with `spec_` are the specifications of the functions that follow them.
Functions marked `external_body` call other crates; their comments say what is
taken for granted of those.
