//! Task tracking core: the task model, its priorities, and the store that
//! hands out small reusable identifiers.
//!
//! A [`Store`] holds [`Task`]s in the order in which they were added, each
//! under a small identifier that is free again once the task is deleted.
//! [`store::record`] and [`store::lines`] say how a store is laid out in its
//! file, [`handler`] and [`cli`] hold what the front ends do with a store.
//! The file itself, the command line and the protocol of the tool-calling
//! front end are the business of the program around this library.

pub mod cli;
pub mod handler;
pub mod priority;
pub mod store;
pub mod task;
pub mod time;

pub use store::paths;
pub use store::Error as StoreError;
pub use store::OpenTask;
pub use store::Store;
pub use task::Priority;
pub use task::Task;
