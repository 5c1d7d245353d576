//! Decision logic of a PostgreSQL backup tool: restoring, verifying and
//! administering a repository, serving as a worker, and driving the codecs.

pub mod text;
pub mod textmap;
pub mod config;
pub mod compress;
pub mod info;
pub mod paths;
pub mod restore;
pub mod protocol;
pub mod worker;
pub mod history;
pub mod retry;
pub mod verify;
pub mod stanza;
