//! An in-process pipeline runtime: stages wrapping user-supplied
//! transforms, sequential pipelines, fan-out/fan-in groups and replication
//! groups, every one of them behind the same four-operation capability
//! contract (`push`, `push_if_empty`, `try_pop`, `process`), so that any
//! composite can stand wherever a single stage could.

pub mod chain;
pub mod either;
pub mod group;
pub mod laws;
pub mod pipeline;
pub mod queue;
pub mod replication;
pub mod samples;
pub mod stage;
pub mod transform;
