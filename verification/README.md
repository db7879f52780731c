# clip2preview

Extracts the embedded preview image from `.clip` files, verified with Verus.

A `.clip` container starts with `CSFCHUNK` and embeds an SQLite database, normally in a
`CHNKSQLi` chunk. The library locates that database in the container bytes (by the chunk
header, or else by the SQLite file header), opens it with `rusqlite`, reads the
`CanvasPreview` table and returns the largest preview row, with the image format detected
from the payload bytes.

Layout:

- `src/bytes.rs`: byte-sequence search (`find_last_subslice_starting_before`).
- `src/container.rs`: the container format: signature check, chunk and SQLite header
  checks, and the backward windowed scans that locate the database.
- `src/database.rs`: the `rusqlite` calls behind trusted wrappers, and the preview built
  from the selected row.
- `src/preview.rs`: `Preview` and `PreviewFormat`.
- `src/extract.rs`: `extract_preview_from_bytes`, and the laws of the whole pipeline.
- `app/main.rs`: the command-line program and the file and reader entry points
  (`extract_preview`, `extract_preview_from_reader`, saving a preview).
