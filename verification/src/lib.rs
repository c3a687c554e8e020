//! A terminal system-information report: facts about the host are gathered by
//! the caller, reconciled by ordered fallback, formatted into labelled rows,
//! and rendered beside a fixed ASCII-art emblem, line-synchronized, ending in
//! a block of color swatches whose left padding is derived from the visible
//! width of the adjacent art lines.

pub mod format;
pub mod numfmt;
pub mod render;
pub mod resolve;
pub mod style;
pub mod text;
