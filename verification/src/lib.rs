//! Reading a live practice interview from a candidate's own model.
//!
//! A candidate brings a model of their own: a hosted one, or a local one behind any client
//! that speaks the Model Context Protocol. This library decides what that model can see. It
//! never decides what the model says, which is why only what the candidate already sees is
//! shown: the problem as posed, their own code and their own test runs. The interviewer's half
//! of the problem (the contract, the hint ladder, the clarifications, the optimal approach)
//! stays with the interviewer.
//!
//! - [`mentor`] holds the live interviews and answers the messages about them.
//! - [`web`] decides what the `/mcp` route answers.
//! - [`agent`] is what an interviewer works from.
//! - [`json`] and [`text`] are the values and the words that messages are made of.
//! - [`outside`] calls into outside crates; all that is believed without proof stands there.

pub mod agent;
pub mod json;
pub mod mentor;
pub mod outside;
pub mod text;
pub mod web;
