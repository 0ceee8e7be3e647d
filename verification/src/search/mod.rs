pub mod embedding;
pub mod grep;
pub mod pattern;
pub mod vector_store;
