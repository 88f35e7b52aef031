# eg_femtofont

A TTF/OTF text renderer for `embedded_graphics`, built on the `femtofont`
rasteriser, with its integer core verified in Verus.

- `src/` is the verified library: colour blending and inversion (`color`),
  points, sizes and rectangles (`geometry`), the pixels a rasterised glyph
  produces (`glyph`), and baseline offsets, whitespace and string metrics
  (`text`).
- `app/` holds `FemtoFontTextStyle` and its `TextRenderer` / `CharacterStyle`
  impls: the font calls, which work in floating point, and the conversions
  between `embedded_graphics` types and the library's plain values.
