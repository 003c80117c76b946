//! Batched data: the rules that optional parts of a batch follow.
pub mod option_batch;
