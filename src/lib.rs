//! Aligned plain-text tables with a fixed column count.
//!
//! A [`Builder`] collects a header, the column alignments and any number of
//! content rows, keeps the running width of every column, and yields a
//! [`Table`] that renders itself as text.
pub mod alignment;
pub mod row;
pub mod render;
pub mod table;
pub mod builder;

pub use alignment::{Alignment, ParseError};
pub use row::Row;
pub use table::Table;
pub use builder::Builder;
