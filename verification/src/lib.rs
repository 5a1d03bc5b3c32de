//! A typing-speed test for the terminal, without the terminal: the sources of
//! target words, the typing session with its three states, the scoring of a
//! finished session, and the application that holds one session at a time.
//!
//! Every function states what it returns or changes over plain values: words
//! are sequences of characters, and a session and an application each have a
//! view that the contracts speak of. What the clock and the random generator
//! decide is left open there, and nothing else.

pub mod app;
pub mod clock;
pub mod render;
pub mod session;
pub mod stats;
pub mod text;
pub mod words;
