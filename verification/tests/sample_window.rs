use std::collections::VecDeque;

use whenamp::sample_window::push_recent;

#[test]
fn keeps_only_the_latest_samples() {
    let mut buffer: VecDeque<i32> = VecDeque::new();
    for v in 1..=6 {
        push_recent(&mut buffer, v, 4);
    }
    assert_eq!(buffer.iter().copied().collect::<Vec<_>>(), vec![3, 4, 5, 6]);
}

#[test]
fn keeps_everything_while_under_capacity() {
    let mut buffer: VecDeque<i32> = VecDeque::new();
    push_recent(&mut buffer, 7, 4);
    push_recent(&mut buffer, 8, 4);
    assert_eq!(buffer.iter().copied().collect::<Vec<_>>(), vec![7, 8]);
}

#[test]
fn shrinks_an_overfull_buffer_to_capacity() {
    let mut buffer: VecDeque<i32> = (0..10).collect();
    push_recent(&mut buffer, 10, 3);
    assert_eq!(buffer.iter().copied().collect::<Vec<_>>(), vec![8, 9, 10]);
    push_recent(&mut buffer, 11, 0);
    assert!(buffer.is_empty());
}
