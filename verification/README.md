# prismatic_visualizer

A color-space visualizer: a grid of colors is shown as a 3D point cloud,
edges, quads or the sides of a volume, next to 2D scenes such as a
hue wheel.

- `src/` is the verified library: the settings pages and which display mode
  offers which page, how a color channel is divided into steps, the window
  layout of the panel and the two views, the cycling of the 2D scenes and the
  hue wheel's rings, the slicing geometry, and the generation of vertex, edge
  and face lists over the color grid with a registry that holds each vertex
  once, keeping the first of equal vertices (an `indexmap::IndexMap` behind
  trusted wrappers), and how a quad is split into triangles for a mesh.
- `app/` is the Bevy/egui program around it: windows, cameras, panels,
  meshes, and the floating-point color conversions.
- `tests/` runs the library on concrete values.
