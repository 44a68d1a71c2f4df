//! Typed marshalling between domain entities and the attribute maps of a
//! key-value store, with table descriptors that fix the wire type of each key.
//!
//! A value knows the tag it travels under ([`value`]); a record is a map of
//! named values ([`item`]); a table names the attributes that are its keys and
//! their tags ([`table`]); an operation encodes typed keys into a request and
//! decodes the answer into a record ([`operation`]). [`wire`] holds the values
//! and maps as they travel, [`error`] what can go wrong, and [`tags`] a table
//! of resource tags built from these parts.
//!
//! Nothing here talks to the store. An operation that is sent hands out its
//! request; the caller makes the call and gives the outcome back.

pub mod error;
pub mod item;
pub mod operation;
pub mod table;
pub mod tags;
pub mod value;
pub mod wire;
