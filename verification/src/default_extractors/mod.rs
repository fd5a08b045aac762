//! The extraction rules that come with the library.

pub mod docx;
pub mod html;
pub mod json;
pub mod pptx;
pub mod txt;
pub mod xliff;
pub mod xlsx;
pub mod xml;
