# plotters

A plotting library whose coordinate systems, axis key points, chart layout
arithmetic and font lookups are verified with Verus.

## Layout

- `src/` is the verified library.
  - `coord/`: the mapping of coordinates onto pixels and the one-dimensional
    axes: integer axes and their key points, categories, discrete and centric axes,
    grouping, linspace, nested and partial axes, key point decorators, polar
    and two-axis coordinate systems, time axes (the integer plans of their key
    points), logarithmic axes (the integer plan of their key points) and the
    tick layout of linear axes.
  - `chart/`: the chart builder (margins, label areas and how they split the
    drawing area), the placement of mesh labels, ticks and series labels, the
    extent of tick marks and their labels, the spill of tick labels in a chart
    layout, and the axes of 3D charts.
  - `series/`: the line series.
  - `style/`: palettes and colors, color maps, notebook figures (with their
    base64 and PNG encodings), and fonts: families, styles, cache keys,
    registered fonts and their lookup, font errors, glyph coverage masks and
    the acceptance of font data by the font engine.
- `app/` holds what runs on floating-point numbers or on chrono's time
  values (float and time axes, HSL colors, color maps, tick spacing,
  quartiles, float printing), the mesh drawing onto a backend, and the
  process-wide font registry. The chart layout's flexbox node tree and the
  drawing of the chart layout and chart contexts stand nowhere; their
  arithmetic is in `src/chart/`.
- `tests/` exercises the library.

Every public function of `src/` states what it returns in its contract, and
the laws that relate several functions (round trips of indices and
coordinates, the shape of key points, the even spacing of ticks, the order
of mapped values) are stated and proved as proof functions.
