pub mod text;
pub mod error;
pub mod config;
pub mod llm;
pub mod llm_providers;
pub mod git;
