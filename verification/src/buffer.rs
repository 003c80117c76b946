//! Buffers of transitions: the ring that replay buffers keep, their storage,
//! their samplers, and the rollout buffers of on-policy methods.
pub mod ring;
pub mod replay;
pub mod replay_buffer;
pub mod sampler;
pub mod rollout_buffer;
pub mod sum_tree;
