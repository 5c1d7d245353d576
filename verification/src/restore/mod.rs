//! The `restore` command: which backup is restored, what is copied from where,
//! how links are laid out, and how the restored cluster is told to recover.

pub mod bundle;
pub mod copy;
pub mod database;
pub mod delta;
pub mod links;
pub mod plan;
pub mod recovery;
pub mod resolver;
pub mod run;
pub mod select;
pub mod session;
pub mod stray;
pub mod time;
