//! What an interviewer works from: the problem it poses and the state of the interview.

use vstd::prelude::*;

use crate::json::Json;

verus! {

/// A problem as one interview poses it. The title and the brief are the candidate's; the
/// contract, the hint ladder and the clarifications are the interviewer's.
#[derive(Debug)]
pub struct Variant {
    pub title: &'static str,
    pub brief: String,
    pub contract: &'static str,
    pub hints: Vec<&'static str>,
    pub clarifications: Vec<&'static str>,
}

impl Variant {
    /// The problem in the words in which it is posed.
    pub fn brief_text(&self) -> (res: String)
        ensures
            res@ == self.brief@,
    {
        self.brief.clone()
    }
}

/// A problem of the bank. The optimal approach is the interviewer's.
#[derive(Debug)]
pub struct Problem {
    pub posed: Variant,
    pub optimal: &'static str,
}

impl Problem {
    /// The variant that is posed.
    pub fn variant(&self) -> (res: &Variant)
        ensures
            *res == self.posed,
    {
        &self.posed
    }
}

/// What an interview has come to: the candidate's editor and their test runs.
#[derive(Debug)]
pub struct RuntimeState {
    pub language: String,
    pub code: String,
    pub last_test_run: Option<Json>,
    pub test_runs: u32,
}

} // verus!
