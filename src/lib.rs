//! Linked-list containers with verified contracts: a singly-linked stack,
//! a persistent list whose versions share their suffixes, and a
//! double-ended queue whose nodes are linked in both directions.
pub mod deque;
pub mod shared_list;
pub mod stack;
