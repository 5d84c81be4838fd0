//! Indentation engine for LaTeX-like markup.
//!
//! The engine rewrites the leading whitespace of each line of a source file so
//! that it reflects the nesting depth of environments and bracket delimiters,
//! and leaves everything else untouched.  Text after an unescaped comment
//! marker is excluded from the nesting analysis, regions flagged as suppressed
//! by the caller are copied verbatim, and depths that would go negative are
//! clamped to zero with a warning diagnostic.
#![verifier::loop_isolation(false)]

use vstd::prelude::*;

pub mod comments;
pub mod indent;
pub mod laws;
pub mod logging;
pub mod text;
