use danmaku_machine::lines::{push_capped, MAX_LINES};

#[test]
fn lines_grow_up_to_the_cap() {
    let mut lines: Vec<u32> = Vec::new();
    for i in 0..MAX_LINES as u32 {
        push_capped(&mut lines, i, MAX_LINES);
    }
    assert_eq!(MAX_LINES, 100);
    assert_eq!(lines.len(), 100);
    assert_eq!(lines[99], 99);
    push_capped(&mut lines, 100, MAX_LINES);
    assert_eq!(lines.len(), 100);
    assert_eq!(lines[99], 99);
    assert_eq!(lines[0], 0);
}

#[test]
fn lines_over_the_cap_are_cut_back() {
    let mut lines = vec![1, 2, 3, 4, 5];
    push_capped(&mut lines, 6, 3);
    assert_eq!(lines, vec![1, 2, 3]);
    let mut lines = vec![1, 2];
    push_capped(&mut lines, 3, 3);
    assert_eq!(lines, vec![1, 2, 3]);
    let mut lines: Vec<u8> = Vec::new();
    push_capped(&mut lines, 1, 0);
    assert!(lines.is_empty());
}
