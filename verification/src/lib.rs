//! Layout and navigation engine for a virtualized spreadsheet grid.
//!
//! The engine maps pixel coordinates to logical row/column indices (and
//! back) under sparse per-row/per-column sizing, tracks an active-cell
//! cursor with keyboard navigation and scroll-into-view deltas, and offers
//! exact two-dimensional rectangle geometry for hit testing and clipping.
//! Painting, DOM wiring and scrollbar widgets live with the host
//! application; everything here is pure, in-memory layout state.

pub mod active_cell;
pub mod cell;
pub mod column;
pub mod dimension;
pub mod geometry;
pub mod grid;
pub mod helpers;
pub mod model;
pub mod row;
pub mod scroll;
pub mod sheet;
pub mod viewport;
