//! Integer matrix arithmetic with checked shapes, together with the text
//! handling of an interactive matrix calculator: reading counts and rows
//! from typed lines, recognising menu commands, and laying results out in
//! fixed-width columns.

pub mod error;
pub mod wrapping;
pub mod matrix;
pub mod laws;
pub mod text;
pub mod number;
pub mod input;
pub mod render;
pub mod command;
