//! Source-code intelligence over a workspace: positions given by line and
//! column, possibly approximate, are resolved to byte offsets of the
//! semantic engine, the engine's answers are restated in lines and columns,
//! and the edits it proposes are applied to text.

pub mod error;
pub mod position;
pub mod text;
pub mod cursor;
pub mod entities;
pub mod tracker;
pub mod changes;
pub mod engine;
pub mod analyzer;
pub mod strings;
pub mod convert;
pub mod sorting;
pub mod command;
pub mod render;
pub mod writer;
