//! A multi-group chat relay, and a handful of small data structures.
//!
//! The relay's rules live in [`chat`]: the request grammar, the response
//! lines, the table of groups and the per-connection state machine.
pub mod artists;
pub mod assoc;
pub mod chat;
pub mod complex;
pub mod copy;
pub mod decimal;
pub mod depth_first;
pub mod fib;
pub mod fib_iter;
pub mod fizzbuzz;
pub mod flagged;
pub mod grep;
pub mod image;
pub mod interval;
pub mod list;
pub mod router;
pub mod selector;
pub mod tree;
