//! Verified cores of a set of small Unix-style text utilities.
//!
//! The largest piece is the line-numbering filter in `nl`: a per-line state
//! machine that classifies lines into header/body/footer sections and renders
//! a running counter in a fixed-width field. The remaining modules hold the
//! decision logic of the other tools (head, seq, sleep, wc, yes) and the
//! base32/base64 pass-through, each stated over a mathematical model.
pub mod chars;
pub mod encoding;
pub mod head;
pub mod nl;
pub mod render;
pub mod seq_tool;
pub mod sleep;
pub mod wc;
pub mod yes;

pub use render::NumberFormat;
