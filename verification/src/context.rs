//! Domain types shared by frontends and services.

use vstd::prelude::*;

use crate::identity::{new_identifier, random_identifier};

verus! {

/// Stable identity for an execution context.
#[derive(Clone, Copy, Debug, Eq, Hash, PartialEq, Structural)]
pub struct ContextId {
    bits: u128,
}

impl ContextId {
    pub closed spec fn bits(self) -> u128 {
        self.bits
    }

    /// Creates a fresh context identifier. It is random, so nothing tells which one it is.
    #[must_use]
    pub fn new() -> (res: Self)
        ensures
            random_identifier(res.bits()),
    {
        ContextId { bits: new_identifier() }
    }
}

impl Default for ContextId {
    fn default() -> (res: Self)
        ensures
            random_identifier(res.bits()),
    {
        Self::new()
    }
}

/// The machine on which commands execute.
#[derive(Clone, Debug, Eq, PartialEq)]
pub enum ExecutionTarget {
    /// A process on the desktop host.
    Local,
    /// A process reached through a saved SSH profile.
    Ssh { profile_id: String },
}

/// Shell metadata needed to start a terminal session.
#[derive(Clone, Debug, Eq, PartialEq)]
pub struct ShellProfile {
    pub program: String,
    pub args: Vec<String>,
    pub cwd: Option<String>,
}

/// A named, visibly distinct place where commands execute.
#[derive(Clone, Debug, Eq, PartialEq)]
pub struct ExecutionContext {
    pub id: ContextId,
    pub name: String,
    pub target: ExecutionTarget,
    pub shell: ShellProfile,
    pub cwd: Option<String>,
}

} // verus!
