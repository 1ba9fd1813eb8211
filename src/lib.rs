//! Weekly journal notes: which file a moment of time belongs to, and the exact
//! text that one entry adds to it.
pub mod date;
pub mod laws;
pub mod message;
pub mod note;
pub mod text;
