//! Steps as command lines: a program and its arguments, divided by white
//! space.

use crate::errors::JobRunnerError;
use crate::text::{is_white_space, lemma_words_of_white_space, split_words, words};
use vstd::prelude::*;
use vstd::string::*;

verus! {

/// The program that a step names, and what is handed to it.
#[derive(Debug, PartialEq, Eq)]
pub struct Invocation {
    pub program: String,
    pub arguments: Vec<String>,
}

/// What the end of a child process means for its step: `code` is the exit
/// code, or nothing where a signal ended the child.
pub open spec fn step_succeeded(code: Option<i32>) -> bool {
    code == Some(0i32)
}

/// Reads steps as command lines and judges how they ended. There is no
/// quoting: an argument cannot hold white space.
#[derive(Debug, Clone, Copy, PartialEq, Eq, Structural)]
pub struct Runner {}

impl Runner {
    /// Divides `step` into its words: the first is the program, the others
    /// are its arguments. A step without a word names no program.
    pub fn invocation(&self, step: &str) -> (r: Result<Invocation, JobRunnerError>)
        ensures
            match r {
                Ok(invocation) => {
                    &&& words(step@).len() > 0
                    &&& invocation.program@ == words(step@).first()
                    &&& invocation.arguments.deep_view() == words(step@).drop_first()
                },
                Err(e) => {
                    &&& words(step@).len() == 0
                    &&& e matches JobRunnerError::InvalidStepError { step: named }
                    &&& named@ == step@
                },
            },
    {
        let mut found = split_words(step);
        if found.len() == 0 {
            return Err(JobRunnerError::InvalidStepError { step: String::from_str(step) });
        }
        let program = found.remove(0);
        Ok(Invocation { program, arguments: found })
    }

    /// What the end of the child means for `step`: success where it exited
    /// with code zero, and otherwise the error that carries the step and the
    /// code, or no code where a signal ended the child.
    pub fn outcome(&self, step: &str, code: Option<i32>) -> (r: Result<(), JobRunnerError>)
        ensures
            match r {
                Ok(()) => step_succeeded(code),
                Err(e) => {
                    &&& !step_succeeded(code)
                    &&& e matches JobRunnerError::StepNonZeroStatusCodeError {
                        step: named,
                        code: carried,
                    }
                    &&& named@ == step@
                    &&& carried == code
                },
            },
    {
        match code {
            Some(0) => Ok(()),
            _ => Err(JobRunnerError::StepNonZeroStatusCodeError { step: String::from_str(step), code }),
        }
    }
}

/// A step names no program where it is empty or all of it is white space,
/// and nowhere else.
pub proof fn lemma_step_without_program(step: Seq<char>)
    ensures
        words(step).len() == 0 <==> forall|i: int| 0 <= i < step.len() ==> is_white_space(step[i]),
{
    lemma_words_of_white_space(step);
}

} // verus!
