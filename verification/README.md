# bake

Building blocks for deep reinforcement learning, with the bookkeeping that the
learning loop depends on proved correct.

- `src/` is the verified library: the ring that replay buffers write into and
  the slots and rows of their storage, uniform samplers, the rollout buffer,
  the shape of the sum and min trees behind prioritized replay, the minibatch
  schedule of an epoch, the backward sweep of advantage estimation, the moving
  window behind the logger, and the rule that optional batch parts are all
  present or all absent when batches are concatenated. Public functions state
  their results in their contracts. Where a result comes from a random
  generator, the contract states what holds of every draw, and the generator
  keeps a ghost record of what it was handed (its seed, the bound of each
  draw, each list shuffled and the list that came back), so the contracts also
  say what the library handed to `rand`. The laws that span several calls are public
  proof functions.
- `app/` holds what works on tensors and floating-point values (batches,
  losses, priorities, linear schedules, moving averages) and calls the library
  for the index logic. It is not complete: the agents, the learning algorithms
  with their losses and logs, the approximators (encoders, heads, composed and
  wrapped networks) and their configurations are not part of it.
- `tests/` exercises the library on concrete values.
