//! A marshalling layer for a source-code formatting engine.
//!
//! Callers hand in a nul-terminated byte buffer; the library decodes it as
//! UTF-8 text, runs the formatting engine, and encodes the result back into
//! a nul-terminated byte buffer. Every failure (missing input, malformed
//! text, the engine declining the source, a terminator inside the output)
//! collapses to the single answer "no output".

pub mod cbuf;
pub mod encoding;
pub mod marshal;
