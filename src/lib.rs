//! A block-structured binary archive of chess games: the schema, the
//! encoder that deduplicates moves and chunks games into length-prefixed
//! blocks, the scanner and decoder that read them back, and the replay that
//! recovers full moves with a chess rules engine.
pub mod schema;
pub mod wire;
pub mod stream;
pub mod serializer;
pub mod archive;
pub mod engine;
pub mod outside;
pub mod converter;
pub mod analysis;
