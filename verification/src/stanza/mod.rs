//! The `stanza-create`, `stanza-upgrade` and `stanza-delete` commands: what a
//! repository records of a cluster.

pub mod cipher;
pub mod conninfo;
pub mod create;
pub mod delete;
pub mod identity;
pub mod upgrade;
