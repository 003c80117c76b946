use bake::approximator::encoder::layer_dims;
use bake::constraint::Unconstrained;
use bake::contract::EncoderType;
use bake::data::option_batch::unwrap_all;
use bake::logger::MovingWindow;

#[test]
fn options_all_absent_stay_absent() {
    let items: Vec<Option<u32>> = vec![None, None];
    assert_eq!(unwrap_all(items), None);
}

#[test]
fn options_all_present_are_unwrapped_in_order() {
    assert_eq!(unwrap_all(vec![Some(1), Some(2), Some(3)]), Some(vec![1, 2, 3]));
}

#[test]
fn encoder_types_compare() {
    assert!(EncoderType::Shared == EncoderType::Shared);
    assert!(EncoderType::Shared != EncoderType::Separated);
    assert_eq!(Unconstrained, Unconstrained);
}

#[test]
fn moving_window_keeps_latest_values() {
    let mut w = MovingWindow::new(3);
    assert_eq!(w.push(1), None);
    assert_eq!(w.push(2), None);
    assert_eq!(w.push(3), None);
    assert_eq!(w.push(4), Some(1));
    assert_eq!(w.push(5), Some(2));
    assert_eq!(w.len(), 3);
    assert_eq!(w.window(), 3);
}

#[test]
fn perceptron_layers_follow_the_sizes() {
    assert_eq!(layer_dims(&vec![4, 64, 64, 2]), vec![(4, 64), (64, 64), (64, 2)]);
    assert_eq!(layer_dims(&vec![3, 1]), vec![(3, 1)]);
}
