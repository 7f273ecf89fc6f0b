//! A chat-room trivia game coordinator: multiple-choice quiz sessions inside
//! one channel, with per-user scores and majority-vote skipping.
//!
//! The session state machine lives in [`trivia`], over the questions of
//! [`question`] and [`questionset`], the totals of [`scores`] and the
//! per-round dedup sets of [`votetracker`].  [`model`] gives the abstract game
//! state that every session transition is specified against, together with the
//! proved round and scoring laws.  Fetching the question feed and speaking to
//! the chat gateway stay outside the library; [`db`] turns fetched entries
//! into questions, and the session queues its outbound text for the caller to
//! send.

pub mod chat;
pub mod db;
pub mod model;
pub mod optionset;
pub mod question;
pub mod questionset;
pub mod scores;
pub mod text;
pub mod trivia;
pub mod votetracker;
