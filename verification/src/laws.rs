//! What holds of every input: theorems about the tokenizer and the grammar.

pub mod parsing;
pub mod scanning;
