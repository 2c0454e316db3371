//! A minimal builder for SVG markup.
//!
//! Two cooperating builders make up the library: [`Path`] accumulates
//! drawing-rule fragments together with stroke and fill styling, and
//! [`MinSVG`] wraps an ordered sequence of paths, a view box, an optional
//! namespace override and an optional background color into a complete
//! `<svg>` document.  Every serialization routine carries a contract that
//! pins down the produced text exactly, character for character.

pub mod color;
pub mod num;
pub mod path;
pub mod svg;

pub use color::Color;
pub use path::Path;
pub use svg::MinSVG;
