//! Running external commands: platform and shell detection, and the
//! document-loader command protocol (placeholder substitution, result
//! retrieval mode, and failure classification).

pub mod loader;
pub mod platform;
pub mod shell;
pub mod text;
