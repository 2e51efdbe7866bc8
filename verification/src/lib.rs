//! Zfirot: the verified core of a GitHub-projects board.
//!
//! Issues are classified into PRDs, Slices and other issues, Slices derive
//! their board state, and the board groups them into PRD lanes and
//! dependency graphs. Everything here is a pure derivation over plain values;
//! I/O, the GitHub transport and the UI live around it.

pub mod text;
pub mod error;
pub mod pr;
pub mod prd;
pub mod slice;
pub mod classification;
pub mod prose;
pub mod repo;
pub mod token;
pub mod freshness;
pub mod theme;
pub mod view_mode;
pub mod home_filter;
pub mod lane;
pub mod lane_graph;
pub mod board;
pub mod refresh;
pub mod order;
pub mod projects;
pub mod view;
pub mod navigation;
pub mod stores;
pub mod services;
pub mod graphql;
pub mod cache_usage;
pub mod fixtures;
