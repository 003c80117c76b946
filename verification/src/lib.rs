//! Building blocks for deep reinforcement learning: the index and bookkeeping
//! logic of replay and rollout buffers, their samplers, the schedules that
//! training loops follow, and the small types that tie them together.
pub mod scheduler;
pub mod constraint;
pub mod contract;
pub mod approximator;
pub mod random;
pub mod buffer;
pub mod algorithm;
pub mod data;
pub mod logger;
