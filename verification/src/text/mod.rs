//! Verified text utilities shared by the parser, the URL codec and the
//! response builder: character classification, searching and splitting of
//! character sequences, decimal numerals, and UTF-8 decoding.

pub mod chars;
pub mod numbers;
pub mod scan;
pub mod utf8;
