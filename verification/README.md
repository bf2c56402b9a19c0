# bitmap_render

The verified core of a service that shows Bitcoin blocks as bitmaps: one square per transaction,
sized by what the transaction moves.

- `src/` is the library. Every function states in its contract what it returns, and Verus proves
  it; the `law_*` functions state what holds of several functions together.
- `tests/` runs the library on concrete values, with the real compressor, image encoder and cache.
- `app/` is the ordinary Rust around it: two web services (one in front of an explorer or an
  indexer, one in front of a database of bitmaps), the page that shows blocks as cards, and what
  takes floating point.

What the library takes from other crates without proof is stated where it is called: the `lru`
cache in `src/cache.rs`, `brotli` and header values in `src/response.rs`, and `image` in
`src/picture.rs`.
