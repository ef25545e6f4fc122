//! A semantic cache in front of a language model.
//!
//! Chat completion requests are checked, their prompts embedded and looked up among the answers
//! given before. The crate holds the decisions and the computations of the gateway; the services
//! it talks to are reached by the program around it.

pub mod cache;
pub mod config;
pub mod constants;
pub mod dto;
pub mod embedding;
pub mod error;
pub mod ids;
pub mod llm;
pub mod metrics;
pub mod number;
pub mod routes;
pub mod settings;
pub mod text;
pub mod tokenizer;
