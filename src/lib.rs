//! Verified text-processing pieces: a pronoun-counting pipeline over news
//! records (normalizer, tokenizer, counter, per-record and batch steps),
//! folding Unicode text to ASCII, and small rules on persons and books.
pub mod ages;
pub mod ascii;
pub mod books;
pub mod cli;
pub mod pronouns;
pub mod records;
pub mod text;
