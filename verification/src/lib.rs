//! Verified core of a window-manager control tool: typed IPC requests and
//! responses, the query/action dispatch rules, entity listing formatters,
//! picker-line selection resolution, and the per-operation action planners.

pub mod digits;
pub mod protocol;
pub mod listing;
pub mod ops;
pub mod select;
