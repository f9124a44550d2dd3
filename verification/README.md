# xl_view

The logic of an HDR image viewer, verified with Verus.

The viewer shows an image through three layers of textures: a coarse preview
that always fits the graphics memory, tiles of the full resolution that are
loaded as the view moves, and a resampled copy of the viewport. The library in
`src/` decides everything about them that can be stated exactly:

| module | what it decides |
| --- | --- |
| `renderer`, `surface` | what each event changes and which steps follow; how an image divides the graphics-memory budget; the shader's parameters |
| `tile_cache`, `tiles` | which tiles a view wants, which slots they get, what is evicted, and the queue of the loading thread |
| `resampler`, `resampling` | which viewport is resampled, when a request is stale, which source rows are read and which target rows they reach |
| `upload`, `mip` | row geometry of texture uploads, mip passes, budget charges |
| `output`, `hdr_metadata` | output format and color space, luminances, HDR metadata |
| `presentation`, `shader` | the byte layout of the shader's parameters, and the fields that a shader declares for them |
| `ui`, `canvas` | the layout of the overlay and drawing on it |
| `metadata`, `words` | EXIF and XMP fields, normalized text |
| `diagnostics`, `units`, `text` | reports and the numbers in them |
| `view`, `float_bits`, `numeric` | view modes and the limits of a zoom, ordering of floating-point bit patterns, bounded arithmetic |

Floating-point numbers appear in the library as the bits of their binary32 or
binary64 representation: they are compared, clamped and passed on there, and
computed with in `app/`.

`app/` is the program around the library: the window, the graphics device,
worker threads, fonts, and the convolution itself. `tests/` runs the library with
the real EXIF, XML, graphics and half-precision crates linked.
