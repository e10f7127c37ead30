pub mod avalai;
pub mod cli;
pub mod ollama;
pub mod openai;
