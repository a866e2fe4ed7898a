//! The core of a terminal byte editor.
//!
//! At its centre is an editable byte store ([`buffer`]): the bytes of a file
//! in one buffer, with a window around the cursor that every edit brings up
//! to date at once and a tail behind it that a worker shifts later. On the
//! store rest the state of an editing session with its undo log ([`app`]) and
//! the index of a search over the contents ([`search_index`]).
//!
//! Around these stand what a session is driven by and shown through: the
//! windows that take the keys ([`windows`]), the handling of keys and mouse
//! ([`input`]), the decoding of bytes into characters ([`decoder`],
//! [`character`], [`byte`], [`chunk`]), the labels ([`label`]) and the cells
//! of the screen ([`screen`]). All of it works on plain values: the file, the
//! terminal and the clipboard are the caller's.

pub mod app;
pub mod buffer;
pub mod byte;
pub mod character;
pub mod chunk;
pub mod decoder;
pub mod input;
pub mod label;
pub mod screen;
pub mod search_index;
mod text;
pub mod windows;
