//! Core of a book catalogue: document parsing, chapter segmentation,
//! overlapping chunking, ingestion decisions, hybrid retrieval and the
//! context assembly for retrieval-augmented answers.

pub mod text;
pub mod segment;
pub mod chunker;
pub mod document;
pub mod error;
pub mod model;
pub mod search;
pub mod rag;
pub mod ingest;
pub mod index;
pub mod catalog;
pub mod orchestrator;
