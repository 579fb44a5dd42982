use favilla::push_buffer::{PushBuffer, PushBufferError};

#[test]
fn push_buffer_grows() {
    let mut push_buffer = PushBuffer::<u32>::new(4);
    assert_eq!(push_buffer.len(), 0);
    assert_eq!(push_buffer.capacity(), 4);

    {
        let mut pass = push_buffer.start_pass(0).unwrap();
        for i in 0..8 {
            pass.push(&mut push_buffer, i + 1);
        }
        pass.finish(&mut push_buffer);
    }

    assert_eq!(push_buffer.len(), 8);
    assert_eq!(push_buffer.data(), &(1..9).collect::<Vec<_>>());
    assert!(push_buffer.capacity() >= 8);

    let pass = push_buffer.start_pass(0).unwrap();
    drop(pass);

    assert_eq!(push_buffer.len(), 0);
}

#[test]
fn single_pass_of_eight_from_capacity_four() {
    let mut buffer = PushBuffer::<u64>::new(4);
    let mut pass = buffer.start_pass(0).unwrap();
    for i in 0..8u64 {
        pass.push(&mut buffer, i * 10);
    }
    pass.finish(&mut buffer);
    assert_eq!(buffer.len(), 8);
    assert!(buffer.capacity() >= 8);
    assert_eq!(buffer.capacity(), 8); // one doubling from 4
    assert_eq!(buffer.data(), &[0, 10, 20, 30, 40, 50, 60, 70]);
}

#[test]
fn pass_reset_after_prior_state() {
    let mut buffer = PushBuffer::<u32>::new(4);
    let mut pass = buffer.start_pass(0).unwrap();
    for i in 0..6 {
        pass.push(&mut buffer, i);
    }
    pass.finish(&mut buffer);
    let prior_capacity = buffer.capacity();

    let mut pass = buffer.start_pass(0).unwrap();
    pass.push(&mut buffer, 99);
    pass.finish(&mut buffer);

    assert_eq!(buffer.len(), 1);
    assert_eq!(buffer.data(), &[99]);
    assert_eq!(buffer.capacity(), prior_capacity);
}

#[test]
fn partial_restart_overwrites_second_element() {
    let mut buffer = PushBuffer::<u32>::new(4);
    let mut pass = buffer.start_pass(0).unwrap();
    pass.push(&mut buffer, 7);
    pass.push(&mut buffer, 8);
    pass.finish(&mut buffer);
    assert_eq!(buffer.len(), 2);

    let mut pass = buffer.start_pass(1).unwrap();
    pass.push(&mut buffer, 42);
    pass.finish(&mut buffer);

    assert_eq!(buffer.len(), 2);
    assert_eq!(buffer.data(), &[7, 42]);
    assert_eq!(buffer.capacity(), 4);
}

#[test]
fn start_pass_reports_length_before_finish() {
    let mut buffer = PushBuffer::<u32>::new(4);
    let mut pass = buffer.start_pass(0).unwrap();
    pass.push(&mut buffer, 1);
    pass.push(&mut buffer, 2);
    pass.push(&mut buffer, 3);
    pass.finish(&mut buffer);

    // starting a pass at index 1 immediately truncates the reported length
    let mut pass = buffer.start_pass(1).unwrap();
    assert_eq!(buffer.len(), 1);
    pass.push(&mut buffer, 4);
    // the push is not committed until the pass finishes
    assert_eq!(buffer.len(), 1);
    pass.finish(&mut buffer);
    assert_eq!(buffer.len(), 2);
    assert_eq!(buffer.data(), &[1, 4]);
}

#[test]
fn start_pass_at_capacity_is_allowed() {
    let mut buffer = PushBuffer::<u8>::new(2);
    let mut pass = buffer.start_pass(0).unwrap();
    pass.push(&mut buffer, 5);
    pass.push(&mut buffer, 6);
    pass.finish(&mut buffer);

    // pure append continuing the previous pass
    let mut pass = buffer.start_pass(2).unwrap();
    pass.push(&mut buffer, 7);
    pass.finish(&mut buffer);
    assert_eq!(buffer.len(), 3);
    assert_eq!(buffer.data(), &[5, 6, 7]);
    assert_eq!(buffer.capacity(), 4);
}

#[test]
fn start_pass_past_capacity_is_rejected() {
    let mut buffer = PushBuffer::<u8>::new(4);
    let result = buffer.start_pass(5);
    assert!(matches!(result, Err(PushBufferError::InvalidStartIndex)));
    // the buffer is untouched
    assert_eq!(buffer.len(), 0);
    assert_eq!(buffer.capacity(), 4);
}

#[test]
fn is_empty_tracks_committed_length() {
    let mut buffer = PushBuffer::<u16>::new(1);
    assert!(buffer.is_empty());
    let mut pass = buffer.start_pass(0).unwrap();
    pass.push(&mut buffer, 3);
    pass.finish(&mut buffer);
    assert!(!buffer.is_empty());
}
