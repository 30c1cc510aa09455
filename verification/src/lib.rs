//! Synthetic object-detection datasets: procedurally placed shapes, their
//! rasterised canvases, COCO-style annotation records, and a derived
//! comparison ("pair") annotation set with a controlled mix of matches.
//!
//! All geometry is fixed-point: one pixel is `UNITS_PER_PIXEL` units, so the
//! library is free of floating-point arithmetic and every contract is stated
//! over integers. Areas are in square units, scores and ratios in millionths.
//!
//! The modules, from the leaves up:
//! - `geometry`, `shape`, `text`: boxes, the shape record, decimal rendering;
//! - `sampler`: the seedable source of every random draw;
//! - `catalog`, `generators`: the closed-form shapes and their random
//!   generators;
//! - `canvas`, `rasterizer`: the pixel buffer and the painting of shapes;
//! - `placement`: rejection sampling of shapes onto one canvas;
//! - `augment`: secondary polygons and combined bounding boxes;
//! - `models`, `settings`: the annotation schema and the options of a run;
//! - `sample_generator`: the assembly of a whole dataset;
//! - `pair`: the derived comparison dataset;
//! - `metadata`, `menu`: image file records and menu labels.

pub mod augment;
pub mod canvas;
pub mod catalog;
pub mod generators;
pub mod geometry;
pub mod menu;
pub mod metadata;
pub mod models;
pub mod pair;
pub mod placement;
pub mod rasterizer;
pub mod sample_generator;
pub mod sampler;
pub mod settings;
pub mod shape;
pub mod text;
