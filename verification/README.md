# tinydraw

A small library of images for 2D drawing, verified with Verus.

- `src/colors.rs`: color types and colors, and how a color is laid out in bytes.
- `src/image.rs`: the `Image` struct, its model `ImageView`, creation, filling and clearing.
- `src/indexing.rs`: pixel positions, reading pixels and setting parts of an image.
- `src/conversions.rs`: converting an image to another color type, and the laws of lossless conversion.
- `src/io.rs`: making an image from raw bytes.
- `src/text.rs`: the text of colors, errors and images.
- `app/`: blending with a floating-point opacity, and reading and writing PNG files.
