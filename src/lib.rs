//! A single-user task tracker: an in-memory task collection with dense ids,
//! the actions that change it, and the command line that selects an action.

pub mod text;
pub mod tags;
pub mod task;
pub mod storage;
pub mod manager;
pub mod cli;
