//! A small process supervisor library: resolves declarative process
//! specifications, builds spawn requests, registers live children, and
//! decides the orchestration steps of a spawn-then-wait-for-all run.
//!
//! The child registry is modeled here as an owned sequence; sharing it
//! across threads — the lock around it, and treating a failed lock as
//! fatal — is the embedding's part.

pub mod args;
pub mod defaults;
pub mod process_spec;
pub mod registry;
pub mod spawner;
pub mod startup;
pub mod supervisor;
