//! A character-cell 2D rendering core: integer vector algebra, tagged
//! positions, fixed-point rotation, triangle/rectangle/circle/line shapes
//! composed into a parent/child tree, and rasterization into a list of
//! z-indexed cell samples.
pub mod number;
pub mod vec2;
pub mod trig;
pub mod pos2;
pub mod orientation;
pub mod geometry;
pub mod pixel;
pub mod line;
pub mod sort;
pub mod triangle;
pub mod circle;
pub mod rectangle;
pub mod shape;
pub mod buffer;
pub mod ui;
