//! Drawafunc core: the parts of the drawing-to-Desmos tool that work on plain
//! values — presets, tool and shortcut decoding, the editing history of a
//! drawing, its fingerprint, span splitting for function fits, and the text
//! assembly of Desmos expressions and status messages.

pub mod desmos;
pub mod document;
pub mod primitives;
pub mod settings;
pub mod spans;
pub mod status;
pub mod stroke;
pub mod text;
pub mod tools;
