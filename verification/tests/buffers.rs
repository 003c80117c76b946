use bake::buffer::replay::LazyStorage;
use bake::buffer::replay_buffer::ReplayBuffer;
use bake::buffer::ring::ring_write;
use bake::buffer::rollout_buffer::RolloutBuffer;
use bake::buffer::sampler::{UniformSampler, UniformSamplerConfig};
use bake::buffer::sum_tree::{leaf_count, rebuild_order, update_path};

#[test]
fn storage_counts_pushes_up_to_capacity() {
    let mut storage: LazyStorage<Vec<u32>> = LazyStorage::new(1000);
    assert_eq!(storage.reserve(), 0);
    assert_eq!(storage.n(), 1);
    assert_eq!(storage.reserve(), 1);
    assert_eq!(storage.n(), 2);
}

#[test]
fn storage_wraps_around() {
    let mut storage: LazyStorage<Vec<u32>> = LazyStorage::new(10);
    let mut slots = Vec::new();
    for _ in 0..15 {
        slots.push(storage.reserve());
    }
    assert_eq!(slots, vec![0, 1, 2, 3, 4, 5, 6, 7, 8, 9, 0, 1, 2, 3, 4]);
    assert_eq!(storage.n(), 10);
    assert_eq!(storage.head(), 5);
    assert_eq!(storage.capacity(), 10);
}

#[test]
fn storage_initializes_once_with_its_buffer() {
    let mut storage: LazyStorage<Vec<u32>> = LazyStorage::new(3);
    assert!(storage.buffer().is_none());
    storage.init(vec![0, 0, 0]);
    assert_eq!(storage.buffer(), Some(&vec![0, 0, 0]));
    let mut b = storage.take_buffer().unwrap();
    let index = storage.reserve();
    b[index] = 7;
    storage.restore_buffer(b);
    assert_eq!(storage.buffer(), Some(&vec![7, 0, 0]));
    assert_eq!(storage.n(), 1);
}

#[test]
fn storage_push_writes_rows_in_a_ring() {
    let mut storage: LazyStorage<Vec<u32>> = LazyStorage::new(3);
    assert_eq!(storage.push(7, 0), 0);
    assert_eq!(storage.buffer(), Some(&vec![7, 0, 0]));
    assert_eq!(storage.n(), 1);
    assert_eq!(storage.push(8, 0), 1);
    assert_eq!(storage.buffer(), Some(&vec![7, 8, 0]));
    assert_eq!(storage.push(9, 0), 2);
    assert_eq!(storage.n(), 3);
    assert_eq!(storage.push(10, 0), 0);
    assert_eq!(storage.buffer(), Some(&vec![10, 8, 9]));
    assert_eq!(storage.n(), 3);
    assert_eq!(storage.head(), 1);
}

#[test]
fn storage_and_sampler_sample_test() {
    let mut storage: LazyStorage<Vec<u32>> = LazyStorage::new(1000);
    let mut sampler = UniformSamplerConfig.init(11, 1000);
    for i in 0..100u32 {
        storage.push(i + 1, 0);
    }
    assert!(storage.n() < 1000);
    assert!(storage.n() == 100);
    let indices = sampler.sample_indices(64, storage.n());
    assert!(indices.len() == 64);
    let rows = storage.buffer().unwrap();
    assert!(indices.iter().all(|&i| i < 100 && rows[i] == i as u32 + 1));
}

#[test]
fn ring_write_appends_then_overwrites() {
    let mut items: Vec<u32> = Vec::new();
    let mut head = 0;
    for v in 0..5u32 {
        head = ring_write(&mut items, head, 3, v);
    }
    assert_eq!(items, vec![3, 4, 2]);
    assert_eq!(head, 2);
}

#[test]
fn replay_init_test() {
    let mut buffer = ReplayBuffer::new(11, 1000);
    buffer.push([1.0f32, 2.0, 3.0]);
    assert!(buffer.len() == 1);
    buffer.push([1.0f32, 2.0, 3.0]);
    assert!(buffer.len() == 2);
}

#[test]
fn sample_test() {
    let mut buffer = ReplayBuffer::new(11, 1000);
    for i in 0..100u32 {
        buffer.push(i);
    }
    assert!(buffer.sample(1000).is_none());
    assert!(buffer.len() == 100);
    assert!(buffer.sample(64).is_some());
    let indices = buffer.sample(64).unwrap();
    assert!(indices.len() == 64);
    assert!(indices.iter().all(|&i| i < 100));
}

#[test]
fn wrap_around() {
    let mut buffer = ReplayBuffer::new(11, 10);
    for i in 0..15u32 {
        buffer.push(i);
    }
    assert!(!buffer.items().contains(&0));
    assert_eq!(buffer.len(), 10);
    assert_eq!(buffer.items(), &vec![10, 11, 12, 13, 14, 5, 6, 7, 8, 9]);
    assert_eq!(buffer.sample(1).unwrap().len(), 1);
}

#[test]
fn one_push_same_sample_test() {
    let mut buffer = ReplayBuffer::new(11, 10);
    buffer.push(5u32);
    assert!(buffer.sample(2).is_none());
    let i1 = buffer.sample(1).unwrap()[0];
    let sample1 = buffer.items()[i1];
    let i2 = buffer.sample(1).unwrap()[0];
    let sample2 = buffer.items()[i2];
    let i3 = buffer.sample(1).unwrap()[0];
    let sample3 = buffer.items()[i3];
    assert!(sample1 == sample2);
    assert!(sample2 == sample3);
    assert!(sample3 == sample1);
    assert_eq!(sample1, 5);
}

#[test]
fn uniform_sampler_draws_within_storage() {
    let mut sampler = UniformSampler::new(11);
    let indices = sampler.sample_indices(64, 100);
    assert_eq!(indices.len(), 64);
    assert!(indices.iter().all(|&i| i < 100));
    let single = sampler.sample_indices(3, 1);
    assert_eq!(single, vec![0, 0, 0]);
    assert!(sampler.sample_indices(0, 0).is_empty());
}

#[test]
fn uniform_sampler_config_builds_a_sampler() {
    let mut sampler = UniformSamplerConfig.init(3, 10);
    assert_eq!(sampler.sample_indices(2, 2).len(), 2);
}

#[test]
fn rollout_init_test() {
    let mut buffer = RolloutBuffer::new();
    buffer.push([1000.0f32; 4]);
    assert_eq!(buffer.len(), 1);
}

#[test]
fn pop_test() {
    let mut buffer = RolloutBuffer::new();
    for i in 0..11u32 {
        buffer.push(i);
    }
    assert_eq!(buffer.len(), 11);
    let rollout = buffer.pop();
    assert!(rollout.len() == 11);
    assert_eq!(rollout, (0..11).collect::<Vec<u32>>());
    assert_eq!(buffer.len(), 0);
}

#[test]
fn leaf_count_is_next_power_of_two() {
    assert_eq!(leaf_count(0), 0);
    assert_eq!(leaf_count(1), 1);
    assert_eq!(leaf_count(2), 2);
    assert_eq!(leaf_count(3), 4);
    assert_eq!(leaf_count(8), 8);
    assert_eq!(leaf_count(9), 16);
    assert_eq!(leaf_count(1000), 1024);
    assert_eq!(leaf_count(50000), 65536);
}

#[test]
fn update_path_climbs_from_leaf_to_root() {
    assert_eq!(update_path(0, 8), vec![8, 4, 2, 1]);
    assert_eq!(update_path(5, 8), vec![13, 6, 3, 1]);
    assert_eq!(update_path(0, 1), vec![1]);
    assert_eq!(update_path(3, 4), vec![7, 3, 1]);
}

#[test]
fn rebuild_order_goes_level_by_level_upwards() {
    assert_eq!(rebuild_order(8), vec![4, 5, 6, 7, 2, 3, 1]);
    assert_eq!(rebuild_order(2), vec![1]);
    assert!(rebuild_order(1).is_empty());
    assert!(rebuild_order(0).is_empty());
    let order = rebuild_order(64);
    assert_eq!(order.len(), 63);
    for (k, &node) in order.iter().enumerate() {
        for child in [2 * node, 2 * node + 1] {
            if child < 64 {
                let pos = order.iter().position(|&x| x == child).unwrap();
                assert!(pos < k);
            }
        }
    }
}
