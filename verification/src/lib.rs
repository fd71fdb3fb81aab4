//! Core engine of a terminal dashboard that renders live bar charts from a
//! stream of numeric samples: rolling sample windows with running statistics,
//! line-to-sample routing, automatic grid partitioning of panes, and
//! quantization of bar values into eighth-of-cell glyph levels.
//!
//! Samples are carried as fixed-point integers in thousandths (milli-units),
//! so that statistics are exact; the surrounding application converts between
//! display floats and milli-units at the boundary.

pub mod chart;
pub mod cli;
pub mod dash;
pub mod grid;
pub mod markers;
pub mod parse;
pub mod render;
pub mod router;
pub mod series;
pub mod text;

pub use chart::Bar;
pub use chart::BarChart;
pub use chart::BarGroup;
pub use cli::AddArgs;
pub use cli::Commands;
pub use cli::RemoveArgs;
pub use dash::Dash;
pub use dash::DashConfig;
pub use grid::GridCell;
pub use grid::Layout;
pub use router::SeriesPool;
pub use series::Series;
