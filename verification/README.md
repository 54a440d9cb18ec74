# realisation_manager

A verified library for organising the photos and videos of an installation
company: it decides which files a scan imports and what record each becomes,
classifies media as business or private, groups business media into
candidate projects, and writes Dutch SEO pages for projects.

- `src/` — the library, written and proved with Verus. Each module states its
  behaviour in `requires`/`ensures` contracts over specification functions;
  the laws that relate several operations are public proof functions.
  `src/trusted.rs` holds the few calls into chrono, slug, blake3, uuid,
  serde_json and `std::path`, whose contracts are believed rather than proved.
- `tests/` — tests of the library on concrete values.
- `app/` — a command-line program around the library: the SQLite database
  (rusqlite + r2d2), walking folders, reading EXIF and image data, OCR and the
  floating-point heuristics (image quality, GPS distances).

Fractions are held as integers in millionths (`_ppm`) and coordinates in
millionths of a degree (`_micro`).
