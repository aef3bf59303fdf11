//! A minimal paste-sharing core: clients submit a title and a body of
//! text and receive a durable, individually retrievable record, and
//! records can be listed by a pseudonymous author identifier derived
//! from the submitter's network address with a keyed one-way hash.

pub mod author;
pub mod error;
pub mod hexstr;
pub mod paste;
pub mod render;
pub mod store;
