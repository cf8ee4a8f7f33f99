//! One handler per supported file format family.

pub mod docx;
pub mod pdf;
pub mod text;
pub mod xlsx;
