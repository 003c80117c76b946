use bake::algorithm::advantage_estimator::backward_step_starts;
use bake::algorithm::minibatch::{chunk_indices, minibatch_indices};
use bake::random::StdSource;

#[test]
fn chunks_split_in_order() {
    let perm: Vec<i64> = (0..7).collect();
    let chunks = chunk_indices(&perm, 3);
    assert_eq!(chunks, vec![vec![0, 1, 2], vec![3, 4, 5], vec![6]]);
    assert!(chunk_indices(&Vec::new(), 4).is_empty());
    assert_eq!(chunk_indices(&perm, 7), vec![perm.clone()]);
}

#[test]
fn minibatches_cover_every_transition_once() {
    let mut rng = StdSource::new(3);
    let chunks = minibatch_indices(&mut rng, 10, 4);
    assert_eq!(chunks.len(), 3);
    assert_eq!(chunks[0].len(), 4);
    assert_eq!(chunks[1].len(), 4);
    assert_eq!(chunks[2].len(), 2);
    let mut all: Vec<i64> = chunks.concat();
    all.sort();
    assert_eq!(all, (0..10).collect::<Vec<i64>>());
}

#[test]
fn backward_steps_visit_all_but_the_last_step() {
    assert_eq!(backward_step_starts(8, 2), vec![4, 2, 0]);
    assert_eq!(backward_step_starts(3, 1), vec![1, 0]);
    assert_eq!(backward_step_starts(4, 4), Vec::<usize>::new());
    assert_eq!(backward_step_starts(5, 2), vec![2, 0]);
}

#[test]
fn minibatches_are_shuffled() {
    let mut rng = StdSource::new(5);
    let chunks = minibatch_indices(&mut rng, 32, 32);
    assert_eq!(chunks.len(), 1);
    assert_ne!(chunks[0], (0..32).collect::<Vec<i64>>());
    let mut all = chunks[0].clone();
    all.sort();
    assert_eq!(all, (0..32).collect::<Vec<i64>>());
}
