//! Task entries for an incremental task runner.
//!
//! An entry holds a shell command and the files the command depends on. Its
//! fingerprint is the SHA-256 digest of the contents of those files and of the
//! command text; an entry whose stored fingerprint still matches has nothing
//! to do.
//!
//! The library decides and never touches the outside world. An evaluation
//! goes step by step: the entry says what it needs, the caller resolves the
//! paths, reads the files or runs the command, and reports back.
//!
//! - `entry`: the entry, its fingerprint, its steps, its stored form.
//! - `protocol`: what passes between an entry and its caller.
//! - `step`: what each step is.
//! - `evaluation`: what the steps add up to.
//! - `fingerprint`, `sensitivity`: what is hashed, and what it depends on.
//! - `watch`, `order`: observed files and the order they are hashed in.
//! - `digest`: SHA-256 and hexadecimal text.
//! - `record`: the stored form of an entry.
//! - `document`: the document nodes that entries are read from.
//! - `text`, `error`: lines, joins, numbers; failures.

pub mod digest;
pub mod document;
pub mod entry;
pub mod error;
pub mod evaluation;
pub mod fingerprint;
pub mod order;
pub mod protocol;
pub mod record;
pub mod sensitivity;
pub mod step;
pub mod text;
pub mod watch;
