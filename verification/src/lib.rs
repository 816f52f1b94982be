//! Terminal candlestick ("K line") chart widgets.
//!
//! The crate computes a non-overlapping layout of graph area, axis lines,
//! tick labels, titles and legend for a rectangular cell grid, renders those
//! parts into an owned cell buffer, and turns each OHLC data point into the
//! geometric primitives of a candlestick glyph.  Prices and data-space
//! coordinates are fixed-point integers; the host terminal layer converts
//! them to its own units when it rasterizes the emitted primitives.

pub mod geom;
pub mod buffer;
pub mod canvas;
pub mod kblock;
pub mod kline;
pub mod klinedata;
pub mod stock;
pub mod style;
pub mod text;
