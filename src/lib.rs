//! Chat-message read-aloud core: the text normalizer that turns a raw chat
//! message into speakable text, the voice catalog and its lookup, and the
//! decision logic of the caching synthesis client.

pub mod chars;
pub mod tokens;
pub mod mention;
pub mod filter;
pub mod catalog;
pub mod client;
pub mod emoji;
pub mod sozai;
pub mod settings;
pub mod dict;

