use heh::buffer::{process_message, shift_down, shift_up, AsyncBuffer, EditMessage, SYNC_BUFF_LEN};

fn counting(len: usize) -> Vec<u8> {
    (0..len).map(|i| (i % 251) as u8).collect()
}

#[test]
fn new_buffer_holds_the_bytes() {
    let buffer = AsyncBuffer::new(vec![1, 2, 3]);
    assert_eq!(buffer.len(), 3);
    assert!(!buffer.is_empty());
    assert_eq!(buffer.window_end(), 3);
    assert!(!buffer.has_work());
    assert_eq!(buffer.read(), &[1, 2, 3]);
}

#[test]
fn window_of_a_large_buffer_is_the_sync_length() {
    let buffer = AsyncBuffer::new(counting(SYNC_BUFF_LEN + 10));
    assert_eq!(SYNC_BUFF_LEN, 0x10000);
    assert_eq!(buffer.window_end(), SYNC_BUFF_LEN);
    assert_eq!(buffer.len(), SYNC_BUFF_LEN + 10);
}

#[test]
fn empty_buffer() {
    let mut buffer = AsyncBuffer::new(Vec::new());
    assert!(buffer.is_empty());
    assert_eq!(buffer.window_end(), 0);
    buffer.compute_new_window(0);
    buffer.block();
    assert_eq!(buffer.read(), &[] as &[u8]);
}

#[test]
fn remove_first_byte_then_insert_it_again() {
    let initial: Vec<u8> = (0..10).collect();
    let mut buffer = AsyncBuffer::new(initial.clone());
    let removed = buffer.remove(0);
    assert_eq!(removed, 0x00);
    assert_eq!(buffer.len(), 9);
    assert_eq!(buffer.window_end(), 9);
    assert!(buffer.has_work());
    buffer.block();
    assert!(!buffer.has_work());
    assert_eq!(buffer.read(), &[1, 2, 3, 4, 5, 6, 7, 8, 9]);
    buffer.insert(0, removed);
    assert_eq!(buffer.len(), 10);
    assert_eq!(buffer.window_end(), 9);
    buffer.block();
    assert_eq!(buffer.read(), initial.as_slice());
}

#[test]
fn remove_last_byte_then_insert_it_again() {
    let mut buffer = AsyncBuffer::new(vec![b'a', b'b', b'c']);
    let removed = buffer.remove(2);
    assert_eq!(removed, b'c');
    assert_eq!(buffer.window_end(), 2);
    buffer.insert(2, removed);
    buffer.block();
    assert_eq!(buffer.read(), b"abc");
}

#[test]
fn hot_window_is_current_without_blocking() {
    let mut buffer = AsyncBuffer::new(vec![10, 20, 30, 40, 50]);
    assert_eq!(buffer.remove(1), 20);
    assert_eq!(&buffer.read()[..buffer.window_end()], &[10, 30, 40, 50]);
    buffer.insert(1, 21);
    assert_eq!(&buffer.read()[..buffer.window_end()], &[10, 21, 30, 40]);
    assert_eq!(buffer.get(1), 21);
    buffer.block();
    assert_eq!(buffer.read(), &[10, 21, 30, 40, 50]);
}

#[test]
fn round_trip_of_several_removals() {
    let initial = counting(100);
    let mut buffer = AsyncBuffer::new(initial.clone());
    let offsets = [5usize, 0, 40, 17, 17, 80];
    let mut removed = Vec::new();
    for &offset in &offsets {
        assert!(offset < buffer.window_end());
        removed.push(buffer.remove(offset));
    }
    assert_eq!(buffer.len(), 94);
    for (&offset, &byte) in offsets.iter().zip(removed.iter()).rev() {
        assert!(offset <= buffer.window_end());
        buffer.insert(offset, byte);
    }
    buffer.block();
    assert_eq!(buffer.len(), 100);
    assert_eq!(buffer.read(), initial.as_slice());
}

#[test]
fn edits_near_the_start_reach_the_end_after_blocking() {
    let len = 3 * 1024 * 1024;
    let initial = counting(len);
    let mut buffer = AsyncBuffer::new(initial.clone());
    assert_eq!(buffer.remove(3), initial[3]);
    assert_eq!(buffer.remove(3), initial[4]);
    buffer.block();
    assert_eq!(buffer.len(), len - 2);
    assert_eq!(&buffer.read()[len - 12..], &initial[len - 10..]);
    assert_eq!(&buffer.read()[..3], &initial[..3]);
    assert_eq!(buffer.read()[3], initial[5]);
    buffer.insert(3, 0xAA);
    buffer.block();
    assert_eq!(buffer.read()[3], 0xAA);
    assert_eq!(&buffer.read()[len - 11..], &initial[len - 10..]);
    assert_eq!(buffer.read()[SYNC_BUFF_LEN], initial[SYNC_BUFF_LEN + 1]);
}

#[test]
fn set_overwrites_one_byte() {
    let mut buffer = AsyncBuffer::new(vec![1, 2, 3]);
    buffer.set(1, 9);
    assert_eq!(buffer.read(), &[1, 9, 3]);
    assert_eq!(buffer.len(), 3);
    assert!(!buffer.has_work());
}

#[test]
fn window_follows_the_cursor() {
    let len = 4 * SYNC_BUFF_LEN;
    let mut buffer = AsyncBuffer::new(counting(len));
    buffer.compute_new_window(0);
    assert_eq!(buffer.window_end(), SYNC_BUFF_LEN);
    assert!(!buffer.has_work());
    // the distance to the end of the window falls under a third of its size
    let cursor = SYNC_BUFF_LEN - SYNC_BUFF_LEN / 3 + 1;
    buffer.compute_new_window(cursor);
    assert_eq!(buffer.window_end(), cursor + SYNC_BUFF_LEN);
    assert!(buffer.has_work());
    // a third of the size is still enough
    let mut other = AsyncBuffer::new(counting(len));
    other.compute_new_window(SYNC_BUFF_LEN - SYNC_BUFF_LEN / 3);
    assert_eq!(other.window_end(), SYNC_BUFF_LEN);
    // near the end the window ends with the contents
    buffer.compute_new_window(len - 5);
    assert_eq!(buffer.window_end(), len);
    // far from the end of the window it shrinks again
    buffer.compute_new_window(10);
    assert_eq!(buffer.window_end(), 10 + SYNC_BUFF_LEN);
    buffer.block();
    assert_eq!(buffer.read(), counting(len).as_slice());
}

#[test]
fn cursor_lies_inside_the_window_after_repositioning() {
    let len = 5 * SYNC_BUFF_LEN + 7;
    let mut buffer = AsyncBuffer::new(counting(len));
    for cursor in [0, 1, SYNC_BUFF_LEN, 3 * SYNC_BUFF_LEN + 1, len - 1, 17, len / 2] {
        buffer.compute_new_window(cursor);
        assert!(cursor < buffer.window_end());
        let removed = buffer.remove(cursor);
        buffer.compute_new_window(cursor);
        assert!(cursor <= buffer.window_end());
        buffer.insert(cursor, removed);
    }
    buffer.block();
    assert_eq!(buffer.read(), counting(len).as_slice());
}

#[test]
fn edits_across_a_moved_window() {
    let len = 3 * SYNC_BUFF_LEN;
    let initial = counting(len);
    let mut buffer = AsyncBuffer::new(initial.clone());
    assert_eq!(buffer.remove(1), initial[1]);
    let cursor = 2 * SYNC_BUFF_LEN;
    buffer.compute_new_window(cursor);
    assert_eq!(buffer.remove(cursor), initial[cursor + 1]);
    buffer.block();
    let mut expected = initial.clone();
    expected.remove(1);
    expected.remove(cursor);
    assert_eq!(buffer.read(), expected.as_slice());
}

#[test]
fn worker_moves_the_tail_down() {
    let mut backing = vec![1, 2, 3, 4, 5];
    let frontier = process_message(&mut backing, 2, EditMessage::Remove);
    assert_eq!(frontier, 1);
    assert_eq!(backing, vec![1, 3, 4, 5, 5]);
}

#[test]
fn worker_puts_a_byte_before_the_tail() {
    let mut backing = vec![1, 2, 3, 4, 5];
    let frontier = process_message(&mut backing, 2, EditMessage::Add(9));
    assert_eq!(frontier, 2);
    assert_eq!(backing, vec![1, 2, 9, 3, 4]);
}

#[test]
fn worker_takes_a_new_boundary() {
    let mut backing = vec![1, 2, 3, 4, 5];
    let frontier = process_message(&mut backing, 2, EditMessage::ModifyWindow(4));
    assert_eq!(frontier, 4);
    assert_eq!(backing, vec![1, 2, 3, 4, 5]);
}

#[test]
fn shifting_inside_a_range() {
    let mut bytes = vec![0, 1, 2, 3, 4, 5];
    shift_down(&mut bytes, 1, 4);
    assert_eq!(bytes, vec![0, 2, 3, 3, 4, 5]);
    let mut bytes = vec![0, 1, 2, 3, 4, 5];
    shift_up(&mut bytes, 1, 4);
    assert_eq!(bytes, vec![0, 1, 1, 2, 4, 5]);
}

#[test]
fn worker_does_its_work_step_by_step() {
    let mut buffer = AsyncBuffer::new(vec![1, 2, 3, 4]);
    assert!(!buffer.work());
    buffer.remove(0);
    buffer.remove(0);
    buffer.insert(1, 9);
    assert!(buffer.has_work());
    assert!(buffer.work());
    assert!(buffer.work());
    assert!(!buffer.work());
    assert!(!buffer.has_work());
    assert_eq!(buffer.read(), &[3, 9, 4]);
    assert!(!buffer.work());
    assert_eq!(buffer.read(), &[3, 9, 4]);
}

#[test]
fn window_is_kept_between_a_third_and_four_thirds_of_its_size() {
    assert_eq!(heh::buffer::WINDOW_MIN_DISTANCE, 21845);
    assert_eq!(heh::buffer::WINDOW_MAX_DISTANCE, 87381);
    let len = 4 * SYNC_BUFF_LEN;
    let mut buffer = AsyncBuffer::new(counting(len));
    buffer.compute_new_window(2 * SYNC_BUFF_LEN);
    let end = buffer.window_end();
    assert_eq!(end, 3 * SYNC_BUFF_LEN);
    buffer.block();
    // the greatest distance at which the window stays, and one more
    buffer.compute_new_window(end - 87381);
    assert_eq!(buffer.window_end(), end);
    assert!(!buffer.has_work());
    buffer.compute_new_window(end - 87382);
    assert_eq!(buffer.window_end(), end - 87382 + SYNC_BUFF_LEN);
}

#[test]
fn edits_outside_the_window_are_told_apart() {
    let len = 2 * SYNC_BUFF_LEN;
    let mut buffer = AsyncBuffer::new(counting(len));
    assert_eq!(buffer.window_end(), SYNC_BUFF_LEN);
    assert!(buffer.takes_removal(0));
    assert!(buffer.takes_removal(SYNC_BUFF_LEN - 1));
    assert!(!buffer.takes_removal(SYNC_BUFF_LEN));
    assert!(!buffer.takes_removal(len));
    // nothing was removed yet: there is no room for another byte
    assert!(!buffer.takes_insertion(0));
    buffer.remove(5);
    assert!(buffer.takes_insertion(5));
    assert!(buffer.takes_insertion(SYNC_BUFF_LEN - 2));
    // the window ends before the contents do: its end is no place to insert
    assert!(!buffer.takes_insertion(SYNC_BUFF_LEN - 1));
    assert!(!buffer.takes_insertion(len - 1));
    // looked after for a cursor at the end, the window ends with the contents
    buffer.compute_new_window(len - 1);
    assert_eq!(buffer.window_end(), len - 1);
    assert!(buffer.takes_insertion(len - 1));
    assert!(!buffer.takes_insertion(len));
    assert!(!buffer.takes_removal(len - 1));
    assert!(buffer.takes_removal(len - 2));
    buffer.insert(len - 1, 7);
    buffer.block();
    assert_eq!(buffer.len(), len);
    assert_eq!(buffer.read()[len - 1], 7);
}

#[test]
fn every_edit_of_a_walk_keeps_to_the_window() {
    let len = 3 * SYNC_BUFF_LEN;
    let mut buffer = AsyncBuffer::new(counting(len));
    let mut expected = counting(len);
    let mut cursor = 1;
    for step in 0..40usize {
        cursor = (cursor * 7919 + step) % buffer.len();
        buffer.compute_new_window(cursor);
        assert!(buffer.takes_removal(cursor));
        let removed = buffer.remove(cursor);
        assert_eq!(removed, expected.remove(cursor));
        if step % 3 == 0 {
            buffer.compute_new_window(cursor);
            assert!(buffer.takes_insertion(cursor));
            buffer.insert(cursor, removed);
            expected.insert(cursor, removed);
        }
    }
    buffer.block();
    assert_eq!(buffer.read(), expected.as_slice());
}
