//! The builder's terminal action: create a container without running it,
//! or run it.

use vstd::prelude::*;
use vstd::string::*;

verus! {

#[derive(Debug, Clone, Copy, PartialEq, Eq, Structural)]
pub enum CreateAction {
    Create,
    Run,
}

/// The runtime subcommand token of an action.
pub open spec fn action_str(a: CreateAction) -> Seq<char> {
    match a {
        CreateAction::Create => "create"@,
        CreateAction::Run => "run"@,
    }
}

impl CreateAction {
    /// Renders the subcommand token for a runtime command line.
    pub fn format(&self) -> (r: String)
        ensures
            r@ == action_str(*self),
    {
        match self {
            CreateAction::Create => String::from_str("create"),
            CreateAction::Run => String::from_str("run"),
        }
    }
}

} // verus!
