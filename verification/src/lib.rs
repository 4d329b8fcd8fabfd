//! Domain coloring of complex-valued functions of one variable.
//!
//! A formula string such as `sin(z) + 2*i` is lexed and parsed into an
//! abstract syntax tree, compiled into a reusable evaluator, sampled over a
//! rectangular viewport of the complex plane, mapped to colors (hue from the
//! argument, lightness from the magnitude), and encoded as an uncompressed
//! 24-bit bitmap file buffer.

pub mod api;
pub mod ast;
pub mod complex;
pub mod domain_color;
pub mod laws;
pub mod lexer;
pub mod parser;
