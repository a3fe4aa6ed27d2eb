//! A polygon geometry engine for an interactive editor, verified with Verus.
//!
//! Positions are integer points within `geometry::COORD_LIMIT`. The modules:
//! - `geometry`: vectors, orientation, squared distances, fixed-point unit
//!   and miter vectors, the shoelace sum;
//! - `polygon`: the cyclic vertex store with edge constraints, orientation
//!   normalization and import/export of coordinate lists;
//! - `crossing`: proper crossings of non-adjacent edges and crossing maps;
//! - `offset`: naive and repaired offset contours;
//! - `object`: an edited polygon with selection, hover, insertion and a
//!   maintained offset contour;
//! - `factory`: click-by-click construction of new polygons;
//! - `state_machine`: the editor's modes and their transitions.
pub mod geometry;
pub mod polygon;
pub mod crossing;
pub mod offset;
pub mod object;
pub mod factory;
pub mod state_machine;
