//! Parser for a hardware API registry: an XML document describing types,
//! enumerations, handles, structs, commands and versioned extensions.
//!
//! The library consumes a flat stream of XML parse events (tokenisation is a
//! collaborator's job), builds a typed registry in a single forward pass, and
//! then resolves extension requirements that inject values into enums defined
//! elsewhere in the document.

pub mod errors;
pub mod events;
pub mod scope;
pub mod strutil;
pub mod xast;
pub mod fields;
pub mod find;
pub mod typeinfo;
pub mod command;
pub mod enums;
pub mod extension;
pub mod namemap;
pub mod registry;
pub mod resolve;
pub mod ffi;
pub mod iter_util;
