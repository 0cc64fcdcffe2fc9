//! Playlist assembly: track recipes with grouped shuffling, search criteria and
//! playlist descriptions, and the decision logic that drives a music service client.

pub mod catalog;
pub mod criteria;
pub mod optimizer;
pub mod paging;
pub mod random;
pub mod run;
pub mod seqs;
pub mod service;
pub mod shuffle;
pub mod text;
