pub mod text;
pub mod fuzz_output_parser;
pub mod json;
pub mod response_parser;
pub mod ordered_map;
pub mod interfaces;
pub mod generation;
pub mod prompt;
pub mod import_paths;
pub mod stage_prompts;
pub mod security_analysis;
pub mod generation_adapter;
pub mod llm;
pub mod groq_adapter;
