//! Fixed-width text tables with box-drawing borders.
//!
//! A [`Table`] holds headers, rows of cells, a border style and an optional
//! alignment of its columns, and renders them as one block of text in which
//! every line has the same length. [`render_table`] does the same for a grid
//! that is text already. The padding of a single cell is in [`padding`], the
//! border styles are in [`style`], and [`layout`] says what the rendered
//! text is. [`frequency`] lays out the most frequent words of a word count
//! as such a table.
//!
//! All widths count characters, not bytes and not display cells.

pub mod frequency;
pub mod layout;
pub mod padding;
pub mod ranking;
pub mod render;
pub mod style;
pub mod table;
pub mod text;

pub use frequency::{frequency_rows, frequency_table, generate_frequency_table};
pub use padding::{pad_input, pad_or_truncate_input, pad_or_truncate_text, pad_text};
pub use render::render_table;
pub use style::{TableStyle, TableStyleFormat};
pub use table::Table;
