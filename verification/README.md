# screen_13

Pieces of a Vulkan rendering engine and its asset packer, written in Verus and proved against
their contracts.

- `src/graph`: render graph bookkeeping: the access cache and pass scheduling, pass reordering,
  merging scheduled passes that can share a render pass and rearranging the graph around the
  merged passes, the attachments and subpasses of render passes, descriptor pool sizes and
  descriptor image layouts, attachment maps and layouts, nodes and descriptor bindings.
- `src/input`: keyboard and mouse button state built from window events, and a one-line text
  editor driven by the keyboard.
- `src/pak`: the contents of `.pak` files: asset identifiers and keys, how each asset file is
  baked, image decoding and resizing through the `image` crate, bitmaps and their pixel
  conversions, material and font baking helpers, hexadecimal color values, and the byte layout
  of stored items written through Brotli or Snappy compression.
- `src/math`, `src/pool`: integer coordinates and rectangles, and resource pool capacities.
- `app`: the asset baking program: it reads `.toml` descriptions and files from disk, serializes
  with bincode, and converts window events for the input buffers.
- `tests`: tests of the library on concrete values.
