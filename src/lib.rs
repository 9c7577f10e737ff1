pub mod text;
pub mod token;
pub mod tokenlist;
pub mod tokenizer;
pub mod parser;
pub mod laws;
pub mod front;
