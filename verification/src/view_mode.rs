//! How the board arranges each PRD lane's Slices.

use vstd::prelude::*;

use crate::text::str_eq;

verus! {

/// How the board arranges each PRD Lane's Slices.
///
/// `Columns` shows the Ready / WIP / Blocked columns, `Graph` shows the
/// left-to-right Blocked-by dependency graph. `Columns` is the default.
#[derive(Clone, Copy, Debug, PartialEq, Eq, Structural)]
pub enum BoardViewMode {
    /// Ready / WIP / Blocked columns (the default).
    Columns,
    /// A left-to-right Blocked-by dependency graph.
    Graph,
}

impl Default for BoardViewMode {
    fn default() -> (m: Self)
        ensures
            m == BoardViewMode::Columns,
    {
        BoardViewMode::Columns
    }
}

/// The stable string persisted for a mode.
pub open spec fn mode_str(m: BoardViewMode) -> Seq<char> {
    match m {
        BoardViewMode::Columns => "columns"@,
        BoardViewMode::Graph => "graph"@,
    }
}

/// The mode a persisted string names, if any.
pub open spec fn mode_from(value: Seq<char>) -> Option<BoardViewMode> {
    if value == "columns"@ {
        Some(BoardViewMode::Columns)
    } else if value == "graph"@ {
        Some(BoardViewMode::Graph)
    } else {
        None
    }
}

impl BoardViewMode {
    /// The stable string persisted for this mode.
    pub fn as_str(self) -> (s: &'static str)
        ensures
            s@ == mode_str(self),
    {
        match self {
            BoardViewMode::Columns => "columns",
            BoardViewMode::Graph => "graph",
        }
    }

    /// Parse a persisted mode string, or `None` if it is unrecognised.
    pub fn from_stored(value: &str) -> (r: Option<BoardViewMode>)
        ensures
            r == mode_from(value@),
    {
        if str_eq(value, "columns") {
            Some(BoardViewMode::Columns)
        } else if str_eq(value, "graph") {
            Some(BoardViewMode::Graph)
        } else {
            None
        }
    }
}

/// Reading back a persisted mode gives the same mode.
pub proof fn law_mode_round_trip(m: BoardViewMode)
    ensures
        mode_from(mode_str(m)) == Some(m),
{
    reveal_strlit("columns");
    reveal_strlit("graph");
    assert("columns"@.len() != "graph"@.len());
}

} // verus!
