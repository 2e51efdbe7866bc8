//! Read models of PRD issues and Agents.

use vstd::prelude::*;

verus! {

/// A read model of a GitHub issue that is a PRD (Product Requirements Document).
#[derive(Debug, PartialEq, Eq)]
pub struct Prd {
    /// The GitHub issue number.
    pub number: u64,
    pub title: String,
}

/// A reference to a PRD issue: its number, title and URL, for a lane header
/// and link.
#[derive(Debug, PartialEq, Eq)]
pub struct PrdRef {
    /// The GitHub issue number.
    pub number: u64,
    pub title: String,
    /// The issue's URL on GitHub.
    pub url: String,
}

impl Clone for PrdRef {
    fn clone(&self) -> (r: Self)
        ensures
            r == *self,
    {
        PrdRef { number: self.number, title: self.title.clone(), url: self.url.clone() }
    }
}

impl Clone for Prd {
    fn clone(&self) -> (r: Self)
        ensures
            r == *self,
    {
        Prd { number: self.number, title: self.title.clone() }
    }
}

/// A reference to an Agent that can currently be assigned on a repository.
#[derive(Debug, PartialEq, Eq)]
pub struct AgentRef {
    /// The Agent's login / display name shown in the UI.
    pub name: String,
    /// The GitHub node ID used when assigning this Agent to a Slice's issue.
    pub node_id: String,
}

impl Clone for AgentRef {
    fn clone(&self) -> (r: Self)
        ensures
            r == *self,
    {
        AgentRef { name: self.name.clone(), node_id: self.node_id.clone() }
    }
}

} // verus!
