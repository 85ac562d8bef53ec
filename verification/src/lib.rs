//! Replay of a directory tree of sample text files as continuously growing
//! log files.
//!
//! The crate holds the replay core: the wrap-strategy policy and its
//! transitions, the per-file read/emit/wrap cycle, round-robin partitioning
//! of discovered files across workers, and the round-robin turn order inside
//! one worker. Callers do the surrounding work (argument handling, the
//! directory walk, file handles, sleeping between turns) and drive the core
//! with plain values.

pub mod numbers;
pub mod parallelism;
pub mod partition;
pub mod replay;
pub mod round_robin;
pub mod strategy;
pub mod turn;
pub mod worker;

pub use numbers::is_positive_number;
pub use parallelism::effective_parallelism;
pub use partition::assign_partitions;
pub use replay::ReplayUnit;
pub use strategy::WrapStrategy;
pub use turn::plan_turn;
pub use turn::ReadEvent;
pub use turn::TurnAction;
pub use turn::WrapAction;
pub use worker::Worker;
