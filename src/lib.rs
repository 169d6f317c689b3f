//! A small permissioned quiz registry: one operator publishes metadata and a
//! question bank, participants submit answer entries up to a fixed capacity.
//! Every operation takes the caller's identity explicitly.

pub mod account;
pub mod laws;
pub mod model;
pub mod quiz;

pub use account::AccountId;
pub use model::{Answer, Entry, InputEntry, Metadata, Question, QuestionEntry, Style};
pub use quiz::{DaQuiz, DaState, Error};
