use whenamp::channels::ChannelCursor;

#[test]
fn cursor_cycles_through_the_channels_of_each_frame() {
    let mut cursor = ChannelCursor::new(2);
    assert_eq!(cursor.channels(), 2);
    let seen: Vec<usize> = (0..5).map(|_| cursor.advance()).collect();
    assert_eq!(seen, vec![0, 1, 0, 1, 0]);
}

#[test]
fn cursor_of_no_channels_is_mono() {
    let mut cursor = ChannelCursor::new(0);
    assert_eq!(cursor.channels(), 1);
    assert_eq!(cursor.advance(), 0);
    assert_eq!(cursor.advance(), 0);
}

#[test]
fn cursor_handles_many_channels() {
    let mut cursor = ChannelCursor::new(6);
    let seen: Vec<usize> = (0..8).map(|_| cursor.advance()).collect();
    assert_eq!(seen, vec![0, 1, 2, 3, 4, 5, 0, 1]);
}

#[test]
fn cursor_marks_the_last_channel_of_each_frame() {
    let mut cursor = ChannelCursor::new(3);
    let ends: Vec<bool> = (0..7).map(|_| cursor.advance() + 1 == cursor.channels()).collect();
    assert_eq!(ends, vec![false, false, true, false, false, true, false]);
}
