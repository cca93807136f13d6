//! An in-memory store of translations: a registry of languages by tag, and
//! for each language a prefix tree from key to text.

pub mod encoding;
pub mod engine;
pub mod keys;
pub mod language;
pub mod laws;
pub mod model;
pub mod order;
pub mod table;
pub mod tag;
pub mod trie;
pub mod version;

pub use engine::{TranslationEngine, Translations};
