//! A task list kept in a text file: tasks with a title, a state and times,
//! the commands that change them, the filters that list them, and the
//! text format in which they are stored.
pub mod calendar;
pub mod commands;
pub mod laws;
pub mod model;
pub mod split_facts;
pub mod store;
pub mod text;
pub mod time_facts;
pub mod utils;
