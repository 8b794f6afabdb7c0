//! The outcome of a solver run, and the solver's words for it.

use crate::text::{chars_of, is_word};
use vstd::prelude::*;

verus! {

/// How a run of the solver ended, whatever the solver.
#[derive(Clone, Copy, Debug, PartialEq, Eq, Structural)]
pub enum Status {
    /// An optimal solution was found.
    Optimal,
    /// The problem has no feasible solution.
    Infeasible,
    /// The objective can be improved without limit.
    Unbounded,
    /// The solver reached no conclusion.
    NotSolved,
}

impl Status {
    /// The outcome that a status token of the report stands for. The solver
    /// writes seven such tokens; any other text stands for no outcome.
    pub open spec fn of_token(token: Seq<char>) -> Option<Status> {
        if token == "INTEGER OPTIMAL"@ || token == "OPTIMAL"@ {
            Some(Status::Optimal)
        } else if token == "INFEASIBLE (FINAL)"@ || token == "INTEGER EMPTY"@ {
            Some(Status::Infeasible)
        } else if token == "UNDEFINED"@ {
            Some(Status::NotSolved)
        } else if token == "INTEGER UNDEFINED"@ || token == "UNBOUNDED"@ {
            Some(Status::Unbounded)
        } else {
            None
        }
    }

    /// Looks up the outcome that a status token stands for, the token given by
    /// its characters.
    pub fn from_chars(token: &[char]) -> (r: Option<Status>)
        ensures
            r == Status::of_token(token@),
    {
        if is_word(token, "INTEGER OPTIMAL") || is_word(token, "OPTIMAL") {
            Some(Status::Optimal)
        } else if is_word(token, "INFEASIBLE (FINAL)") || is_word(token, "INTEGER EMPTY") {
            Some(Status::Infeasible)
        } else if is_word(token, "UNDEFINED") {
            Some(Status::NotSolved)
        } else if is_word(token, "INTEGER UNDEFINED") || is_word(token, "UNBOUNDED") {
            Some(Status::Unbounded)
        } else {
            None
        }
    }

    /// Looks up the outcome that a status token stands for.
    pub fn from_token(token: &str) -> (r: Option<Status>)
        ensures
            r == Status::of_token(token@),
    {
        let chars = chars_of(token);
        Status::from_chars(chars.as_slice())
    }
}

/// The status tokens form a closed set: each of the seven stands for the
/// outcome written beside it here, and no other text stands for any.
pub proof fn lemma_status_tokens(token: Seq<char>)
    ensures
        token == "INTEGER OPTIMAL"@ ==> Status::of_token(token) == Some(Status::Optimal),
        token == "OPTIMAL"@ ==> Status::of_token(token) == Some(Status::Optimal),
        token == "INFEASIBLE (FINAL)"@ ==> Status::of_token(token) == Some(Status::Infeasible),
        token == "INTEGER EMPTY"@ ==> Status::of_token(token) == Some(Status::Infeasible),
        token == "UNDEFINED"@ ==> Status::of_token(token) == Some(Status::NotSolved),
        token == "INTEGER UNDEFINED"@ ==> Status::of_token(token) == Some(Status::Unbounded),
        token == "UNBOUNDED"@ ==> Status::of_token(token) == Some(Status::Unbounded),
        Status::of_token(token) is None <==> !(token == "INTEGER OPTIMAL"@ || token == "OPTIMAL"@
            || token == "INFEASIBLE (FINAL)"@ || token == "INTEGER EMPTY"@ || token
            == "UNDEFINED"@ || token == "INTEGER UNDEFINED"@ || token == "UNBOUNDED"@),
{
    reveal_strlit("INTEGER OPTIMAL");
    reveal_strlit("OPTIMAL");
    reveal_strlit("INFEASIBLE (FINAL)");
    reveal_strlit("INTEGER EMPTY");
    reveal_strlit("UNDEFINED");
    reveal_strlit("INTEGER UNDEFINED");
    reveal_strlit("UNBOUNDED");
    assert("INTEGER OPTIMAL"@.len() == 15);
    assert("OPTIMAL"@.len() == 7);
    assert("INFEASIBLE (FINAL)"@.len() == 18);
    assert("INTEGER EMPTY"@.len() == 13);
    assert("UNDEFINED"@.len() == 9);
    assert("INTEGER UNDEFINED"@.len() == 17);
    assert("UNBOUNDED"@.len() == 9);
    assert("UNDEFINED"@[2] == 'D');
    assert("UNBOUNDED"@[2] == 'B');
}

} // verus!
