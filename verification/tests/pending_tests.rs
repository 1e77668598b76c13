use memtty::pending::PendingOutput;
use memtty::terminal::Terminal;

#[test]
fn pending_output_is_parsed_within_budget() {
    let mut t = Terminal::new();
    let mut p = PendingOutput::new();
    assert!(!p.has_pending());
    p.push(b"abc");
    p.push(b"de");
    assert!(p.has_pending());

    let (replies, consumed) = p.feed(&mut t, 2);
    assert_eq!(consumed, 2);
    assert!(replies.is_empty());
    assert_eq!(t.performer.grid[0][0].c, 'a');
    assert_eq!(t.performer.grid[0][1].c, 'b');
    assert_eq!(t.performer.grid[0][2].c, ' ');
    assert_eq!(&p.bytes[p.offset..], b"cde");

    let (_, consumed) = p.feed(&mut t, 100);
    assert_eq!(consumed, 3);
    assert!(!p.has_pending());
    assert!(p.bytes.is_empty());
    assert_eq!(p.offset, 0);
    assert_eq!(t.performer.grid[0][4].c, 'e');

    let (_, consumed) = p.feed(&mut t, 100);
    assert_eq!(consumed, 0);
}

#[test]
fn pending_output_returns_replies_in_order() {
    let mut t = Terminal::new();
    let mut p = PendingOutput::new();
    p.push(b"\x1b[5n\x1b[6n");
    let (replies, consumed) = p.feed(&mut t, usize::MAX);
    assert_eq!(consumed, 8);
    assert_eq!(replies, vec![b"\x1b[0n".to_vec(), b"\x1b[1;1R".to_vec()]);
}

#[test]
fn pending_output_large_input_is_chunked_and_compacted() {
    let mut t = Terminal::new();
    let mut p = PendingOutput::new();
    let data = vec![0u8; 70_000];
    p.push(&data);
    let (_, consumed) = p.feed(&mut t, 66_000);
    assert_eq!(consumed, 66_000);
    // the parsed bytes were dropped once they passed the compaction mark
    assert!(p.offset < 65_536);
    assert_eq!(p.bytes.len() - p.offset, 4_000);
}

#[test]
fn pending_output_feeding_in_parts_matches_one_feed() {
    let mut t1 = Terminal::new();
    let mut p1 = PendingOutput::new();
    p1.push(b"hello, world");
    let (_, a) = p1.feed(&mut t1, 2);
    let (_, b) = p1.feed(&mut t1, 3);

    let mut t2 = Terminal::new();
    let mut p2 = PendingOutput::new();
    p2.push(b"hello, world");
    let (_, c) = p2.feed(&mut t2, 5);

    assert_eq!(a + b, c);
    assert_eq!(&p1.bytes[p1.offset..], &p2.bytes[p2.offset..]);
    assert_eq!(&p1.bytes[p1.offset..], b", world");
    for x in 0..5 {
        assert_eq!(t1.performer.grid[0][x].c, t2.performer.grid[0][x].c);
    }
}
