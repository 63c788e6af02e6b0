//! Extraction of structured bilingual dictionary records from a dictionary page.
//!
//! The markup is read once into a plain model of its tables (see `model`), and all of the
//! extraction logic works on that model: row grouping, cell-pair classification, the
//! definition scrubber, the entry builder and the page assembler.
pub mod text;
pub mod model;
pub mod grouping;
pub mod entry;
pub mod page;
pub mod dom;
pub mod preserver;
pub mod langbuddy;
