//! Configuration documents whose cloud-connector block is either a single
//! unnamed instance or a set of named instances, together with the dotted
//! key paths through which callers read and write individual settings.

pub mod document;
pub mod dto;
pub mod error;
pub mod key;
pub mod multi;
pub mod reader;
pub mod text;
