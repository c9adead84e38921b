//! A producer of Server-Sent Events: each request gets a fresh stream that
//! pauses one second, then emits a word drawn at random from a fixed list,
//! and ends after as many emissions as the list has words.

pub mod words;
pub mod producer;
