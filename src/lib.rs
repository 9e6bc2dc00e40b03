//! Driving a program inside a headless pseudoterminal: key encoding, the
//! settle heuristic that decides when a snapshot may be taken, the byte pump
//! between the terminal and its queues, and the views of a captured screen.
pub mod keys;
pub mod settle;
pub mod pump;
pub mod grid;
pub mod session;
pub mod protocol;
