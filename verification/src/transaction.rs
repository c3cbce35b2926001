//! The guard of the engine's transaction.
//!
//! The engine allows one transaction at a time, and a transaction that was
//! started must be given up exactly once. A [`TransactionGuard`] is the
//! permission to command the transaction: the commands that need one can be
//! built only from a guard that holds it, and the guard hands out the
//! command that gives it up once and never again.

use vstd::prelude::*;
use vstd::string::*;

use crate::engine::{EngineCommand, EngineCommandView};
use crate::errors::{classified, BackendError};
use crate::text::concat;

verus! {

/// Where a transaction stands.
#[derive(Debug, Clone, Copy, PartialEq, Eq, Structural)]
pub enum GuardState {
    /// No transaction was started.
    Vacant,
    /// A transaction was started and not yet given up.
    Held,
    /// The transaction was given up.
    Released,
}

/// The permission to command the engine's transaction.
#[derive(Debug, PartialEq, Eq)]
pub struct TransactionGuard {
    state: GuardState,
}

/// The text that reports a transaction that could not be started.
pub open spec fn init_failure_message(error: Seq<char>) -> Seq<char> {
    "Failed to initialize transaction: "@ + error
}

impl TransactionGuard {
    /// Where the transaction stands.
    pub closed spec fn state(&self) -> GuardState {
        self.state
    }

    /// Whether the transaction is started and not yet given up.
    pub open spec fn is_held(&self) -> bool {
        self.state() == GuardState::Held
    }

    /// The guard of an operation that has not started a transaction.
    pub fn vacant() -> (g: TransactionGuard)
        ensures
            g.state() == GuardState::Vacant,
    {
        TransactionGuard { state: GuardState::Vacant }
    }

    /// Takes what the engine said to the request to start a transaction:
    /// `None` for success, else its error text. Success gives a guard that
    /// holds the transaction. Failure gives the error to report, classified
    /// from the text, so that a database which another process has locked
    /// is reported as locked.
    pub fn new(init_error: &Option<String>) -> (r: Result<TransactionGuard, BackendError>)
        ensures
            init_error is None <==> r is Ok,
            r matches Ok(g) ==> g.is_held(),
            r matches Err(e) ==> e@ == classified(init_failure_message(init_error->0@)),
    {
        match init_error {
            None => Ok(TransactionGuard { state: GuardState::Held }),
            Some(error) => {
                let text = concat("Failed to initialize transaction: ", error.as_str());
                Err(BackendError::from_message(text.as_str()))
            },
        }
    }

    /// Whether the transaction is held.
    pub fn holds(&self) -> (r: bool)
        ensures
            r == self.is_held(),
    {
        match self.state {
            GuardState::Held => true,
            _ => false,
        }
    }

    /// The command that marks the transaction as a full system upgrade.
    pub fn sync_sysupgrade(&self, enable_downgrade: bool) -> (c: EngineCommand)
        requires
            self.is_held(),
        ensures
            c@ == (EngineCommandView::StageUpgrade { allow_downgrade: enable_downgrade }),
    {
        EngineCommand::StageUpgrade { allow_downgrade: enable_downgrade }
    }

    /// The command that marks the package `name` for removal.
    pub fn remove_pkg(&self, name: &str) -> (c: EngineCommand)
        requires
            self.is_held(),
        ensures
            c@ == EngineCommandView::StageRemoval(name@),
    {
        EngineCommand::StageRemoval(String::from_str(name))
    }

    /// The command that resolves the transaction.
    pub fn prepare(&self) -> (c: EngineCommand)
        requires
            self.is_held(),
        ensures
            c@ == EngineCommandView::Prepare,
    {
        EngineCommand::Prepare
    }

    /// The command that applies the transaction.
    pub fn commit(&self) -> (c: EngineCommand)
        requires
            self.is_held(),
        ensures
            c@ == EngineCommandView::Commit,
    {
        EngineCommand::Commit
    }

    /// Gives the transaction up. A guard that holds one hands out the
    /// command for it and holds it no longer; any other guard hands out
    /// nothing and stays as it is.
    pub fn release(&mut self) -> (c: Option<EngineCommand>)
        ensures
            old(self).is_held() ==> ({
                &&& c matches Some(command)
                &&& command@ == EngineCommandView::Release
                &&& final(self).state() == GuardState::Released
            }),
            !old(self).is_held() ==> c is None && final(self).state() == old(self).state(),
    {
        match self.state {
            GuardState::Held => {
                self.state = GuardState::Released;
                Some(EngineCommand::Release)
            },
            _ => None,
        }
    }
}

/// However often a guard is asked to give its transaction up, it hands out
/// the command at most once, and exactly once if it held the transaction.
pub proof fn lemma_release_is_handed_out_once(start: GuardState, asked: nat)
    ensures
        handed_out(start, asked) == (if start == GuardState::Held && asked > 0 {
            1nat
        } else {
            0nat
        }),
    decreases asked,
{
    if asked > 0 {
        lemma_release_is_handed_out_once(after_release(start), (asked - 1) as nat);
    }
}

/// Where a transaction stands after its guard was asked to give it up.
pub open spec fn after_release(state: GuardState) -> GuardState {
    if state == GuardState::Held {
        GuardState::Released
    } else {
        state
    }
}

/// How many release commands a guard in `state` hands out when asked
/// `asked` times in a row.
pub open spec fn handed_out(state: GuardState, asked: nat) -> nat
    decreases asked,
{
    if asked == 0 {
        0
    } else {
        (if state == GuardState::Held {
            1nat
        } else {
            0nat
        }) + handed_out(after_release(state), (asked - 1) as nat)
    }
}

} // verus!
