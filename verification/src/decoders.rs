//! The decoders that the dispatcher routes to.

pub mod document;
pub mod json;
pub mod markup;
pub mod ocr;
pub mod pdf;
pub mod presentation;
pub mod spreadsheet;
