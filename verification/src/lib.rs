//! Two small linked-list structures with distinct ownership disciplines:
//! a persistent, structurally shared singly-linked list, and a mutable
//! doubly-linked list kept in an arena of index-linked nodes.

pub mod doubly;
pub mod persistent;
