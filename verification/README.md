# gcode_thumbnailer

A thumbnailer for G-code files: it extracts the thumbnail a slicer embedded in
the file's comments, or renders one from the tool path.

- `src/` is the verified library:
  - `text.rs`: character-level helpers (whitespace, comment padding, splitting,
    decimal numbers) stated over the `Seq<char>` view of strings;
  - `color.rs`: validation of the background color option;
  - `embedded_thumbnail.rs`: the scanner for `thumbnail begin` / `thumbnail end`
    comment blocks, with the laws on which thumbnail it keeps;
  - `thumbnail_image.rs`: base64 and image decoding of an embedded thumbnail,
    and downscaling to the requested size;
  - `render_thumbnail.rs`: the printer state machine that turns G0/G1 moves
    into extruded segments, leaving out the priming line and the skirt, brim
    and raft when asked, generic over the coordinate type;
  - `source.rs`: the choice between an embedded and a rendered thumbnail.
- `app/` is the command-line program: argument parsing, file I/O, the adapters
  through which the `gcode` parser drives the library, and the floating-point
  projection and SVG rendering done with `resvg`.
