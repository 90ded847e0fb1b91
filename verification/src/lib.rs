//! Decision core of a daily news digest: configuration, the feed-reader, vector-store,
//! language-model, translation and mail exchanges, and the digest run itself.
//!
//! Nothing here performs I/O. Each exchange with a server is a value that says what to
//! send, and a function that says what follows from the reply.

pub mod text;
pub mod json;
pub mod ordering;
pub mod http;
pub mod config;
pub mod freshrss_fever;
pub mod fever_exchange;
pub mod freshrss;
pub mod freshrss_native;
pub mod llm;
pub mod ollama;
pub mod translate;
pub mod qdrant;
pub mod summary_update;
pub mod schedule;
pub mod email;
pub mod digest;
pub mod user_digest;
pub mod digest_laws;
pub mod fever_laws;
pub mod store_laws;
pub mod config_laws;
pub mod model_laws;
pub mod reader_laws;
