use vstd::prelude::*;

use crate::command::{failure_message, first_failure, is_first_failure, CommandOutcome};

verus! {

/// Where a new workspace goes: right after or right before the pivot workspace.
#[derive(Clone, Debug, PartialEq, Eq)]
pub enum InsertionDestination {
    After { pivot: String },
    Before { pivot: String },
}

impl InsertionDestination {
    /// The name of the pivot workspace.
    pub open spec fn pivot_view(&self) -> Seq<char> {
        match self {
            InsertionDestination::After { pivot } => pivot@,
            InsertionDestination::Before { pivot } => pivot@,
        }
    }

    pub open spec fn is_before(&self) -> bool {
        self is Before
    }

    pub fn new(pivot: String, before: bool) -> (r: Self)
        ensures
            r.pivot_view() == pivot@,
            r.is_before() == before,
    {
        if before {
            InsertionDestination::Before { pivot }
        } else {
            InsertionDestination::After { pivot }
        }
    }

    pub fn pivot(&self) -> (r: &str)
        ensures
            r@ == self.pivot_view(),
    {
        match self {
            InsertionDestination::After { pivot } => pivot.as_str(),
            InsertionDestination::Before { pivot } => pivot.as_str(),
        }
    }
}

/// Why a workspace could not be inserted.
#[derive(Debug, PartialEq, Eq)]
pub enum InsertionError {
    /// No workspace has the pivot's name.
    NoPivotWorkspace(String),
    /// A workspace that had to be shifted has no name to restore.
    UnnamedWorkspace,
    /// The window manager rejected a command of the batch, with this message.
    CommandError(String),
}

/// Turns the outcomes that the window manager reported for a submitted batch
/// into a result: the first failed command, if any, becomes the error.
pub fn check_reply(outcomes: &Vec<CommandOutcome>) -> (r: Result<(), InsertionError>)
    ensures
        r is Ok <==> forall|j: int| 0 <= j < outcomes@.len() ==> outcomes@[j].success,
        match r {
            Err(InsertionError::CommandError(m)) => exists|i: int|
                is_first_failure(outcomes@, i) && m@ == failure_message(outcomes@[i]),
            Err(_) => false,
            Ok(()) => true,
        },
{
    match first_failure(outcomes) {
        Some(m) => Err(InsertionError::CommandError(m)),
        None => Ok(()),
    }
}

/// When exactly one command of a batch failed, that command, wherever it
/// stands, is the first failure, so its message is the one reported.
pub proof fn lemma_single_failure(outcomes: Seq<CommandOutcome>, i: int)
    requires
        0 <= i < outcomes.len(),
        !outcomes[i].success,
        forall|j: int| 0 <= j < outcomes.len() && j != i ==> outcomes[j].success,
    ensures
        forall|k: int| is_first_failure(outcomes, k) <==> k == i,
{
}

} // verus!
