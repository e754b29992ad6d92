//! A URL shortener: a long URL is hashed, and the shortest prefix of the hash
//! that the store can take becomes its short code.
//!
//! - `url`: the digest of a URL and the short codes of a digest.
//! - `hexstr`: the hexadecimal text in which a store keeps a digest.
//! - `url_store`: the store that the engine works against, the store in
//!   memory, and the engine.
//! - `table`: the layout of the store in a remote table.

pub mod hexstr;
pub mod table;
pub mod url;
pub mod url_store;
