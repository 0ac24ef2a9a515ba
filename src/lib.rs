//! A file relay's core: the ingestion queue, the pipeline that commits an
//! artifact and hands out its link, the metadata store, the link codec and
//! the retrieval path with its large-object fallback.

pub mod file_storage;
pub mod ingest;
pub mod link_utils;
pub mod listing;
pub mod parse;
pub mod queue;
pub mod retrieval;
pub mod retry;
pub mod text;
