# seis

Preparation of elastic-wave forward-modelling runs, verified with Verus.

- `src/` is the verified library:
  - `text`, `decimal`: character-level helpers (tokens, joins, prefixes,
    suffixes, last occurrence) and the decimal text of integers, with the
    reading of an `i32` back from text.
  - `bytes`: little-endian integers in byte buffers, through `byteorder`.
  - `matrix`: the `nalgebra` matrices that hold the samples, as bit patterns.
  - `grd`: Surfer grids, binary and text; `seg`: shot records (CDP files).
  - `forward`: model directories and the parameter files of the modelling
    program; `counter`: the request counter of the web page.
- `app/` holds the programs: file and process work, the `f64`/`f32`
  arithmetic and formatting, and the web servers.
- `tests/` runs the library on concrete files and values.
