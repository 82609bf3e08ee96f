//! The commands of the node and what each of them does first.

use vstd::prelude::*;

verus! {

/// What the node is asked to do.
#[derive(Debug, Clone, Copy, PartialEq, Eq, Structural)]
pub enum Commands {
    /// Create the key pair; with `force`, also where one is persisted.
    Initialize { force: bool },
    /// Serve evaluations with the persisted key pair.
    Serve,
}

/// The command line of the node.
#[derive(Debug, Clone, Copy, PartialEq, Eq, Structural)]
pub struct Cli {
    pub command: Commands,
}

/// What a command leads to, given whether a key is persisted.
#[derive(Debug, Clone, Copy, PartialEq, Eq, Structural)]
pub enum Action {
    /// A key is persisted and stays: there is nothing to do.
    KeepKey,
    /// A key pair is created, announced to the registry and persisted.
    CreateKey,
    /// No key is persisted, so the node cannot serve.
    RefuseToServe,
    /// The node loads its key and serves.
    Serve,
}

impl Cli {
    /// What the command leads to. Initializing keeps a persisted key unless
    /// it is forced; serving needs one.
    pub open spec fn spec_action(&self, key_persisted: bool) -> Action {
        match self.command {
            Commands::Initialize { force } => if key_persisted && !force {
                Action::KeepKey
            } else {
                Action::CreateKey
            },
            Commands::Serve => if key_persisted {
                Action::Serve
            } else {
                Action::RefuseToServe
            },
        }
    }

    pub fn action(&self, key_persisted: bool) -> (action: Action)
        ensures
            action == self.spec_action(key_persisted),
    {
        match self.command {
            Commands::Initialize { force } => if key_persisted && !force {
                Action::KeepKey
            } else {
                Action::CreateKey
            },
            Commands::Serve => if key_persisted {
                Action::Serve
            } else {
                Action::RefuseToServe
            },
        }
    }
}

} // verus!
