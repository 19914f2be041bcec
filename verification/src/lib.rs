//! A round-trippable store for JSON-with-comments documents.
//!
//! A document is opened from its text, handed out as a plain value, and later
//! saved from an edited value.  Saving rewrites only what changed, so comments
//! and whitespace survive wherever the shape of the data is kept.
//!
//! - [`value`]: the plain value that callers read and edit.
//! - [`tree`]: the concrete syntax tree, which holds every character.
//! - [`outside`]: the two parsers, behind contracts that are taken on trust.
//! - [`layout`] and [`arrange`]: the tree laid out for editing, each value
//!   with the trivia that belongs to it.
//! - [`fresh`] and [`text`]: how a value without formatting is written.
//! - [`project`]: the projector, which writes a new value onto a layout.
//! - [`document`], [`cache`] and [`service`]: documents, the registry that
//!   remembers them, and opening and saving.
//! - [`commands`]: the same operations with errors as messages.
//! - [`error`]: the errors.
pub mod arrange;
pub mod cache;
pub mod commands;
pub mod document;
pub mod error;
pub mod fresh;
pub mod layout;
pub mod outside;
pub mod project;
pub mod service;
pub mod text;
pub mod tree;
pub mod value;
