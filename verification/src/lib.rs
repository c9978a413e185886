//! Grid layouts of simple shapes, and what it takes to draw them with rough
//! strokes.
//!
//! A canvas is cut into a grid of cells. Every cell holds a square, a circle
//! or a triangle; neighbouring squares of a row are merged into one wider
//! item, and every item is shrunk by a gap. For drawing, each item gets the
//! outline of its shape, a seed, a fill colour and a fill style. A generator
//! of rough paths turns these into paths of lines and Bezier curves, which
//! are flattened into polylines with a colour and a weight.
//!
//! All geometry of the library is exact (see [`geom`]): a canvas is given in
//! whole units, and the items of a layout in fractions of a unit over the
//! columns and the rows of the grid, so that the cells of a grid are equal
//! and fill the region they are cut from. The generator of rough paths and
//! the flattening of a single curve work on floating-point values; the
//! library takes both as functions and is generic in the type of their
//! points.
//!
//! - [`geom`]: rectangles and points.
//! - [`grid`]: the drawing region and the cells of the grid.
//! - [`merge`]: merging of neighbouring squares.
//! - [`layout`]: generation of a layout.
//! - [`model`]: shape kinds, layout items, settings and the state of a sketch.
//! - [`color`]: colours and palette entries.
//! - [`render`]: outline and style of each item.
//! - [`tessellate`]: from path operations to polylines.
//! - [`sketch`]: from drawn shapes to styled polylines.

pub mod color;
pub mod geom;
pub mod grid;
pub mod layout;
pub mod merge;
pub mod model;
pub mod render;
pub mod rng;
pub mod sketch;
pub mod tessellate;
