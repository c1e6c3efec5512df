//! Themed multi-row shell prompt rendering: color progression, escape-sequence
//! building, row layout, segment evaluation outcomes and the daemon wire protocol.

pub mod arith;
pub mod builder;
pub mod color;
pub mod color_text;
pub mod layout;
pub mod prompt;
pub mod protocol;
pub mod segments;
pub mod text;
pub mod theme;
