use gap_buffer::GapBuffer;

#[test]
fn test_insert_after_cursor() {
    let mut buffer = GapBuffer::new(4);
    buffer.insert('a');
    buffer.set_point(1);
    buffer.insert('b');
    buffer.insert('u');
    assert_eq!(buffer.buffer, vec!['a', 'u', '\u{0}', 'b'])
}

#[test]
fn test_insert_before_cursor() {
    let mut buffer = GapBuffer::new(4);
    buffer.insert('b');
    buffer.set_point(1);
    buffer.insert('a');
    buffer.set_point(0);
    buffer.insert('c');
    assert_eq!(buffer.buffer, vec!['c', '\u{0}', 'b', 'a'])
}

#[test]
fn test_insert_after_gap() {
    let mut buffer = GapBuffer::new(4);
    buffer.insert('b');
    buffer.set_point(1);
    buffer.insert('a');
    buffer.set_point(0);
    buffer.insert('c');
    assert_eq!(buffer.buffer, vec!['c', '\u{0}', 'b', 'a']);
    buffer.set_point(3);
    buffer.insert('d');
    assert_eq!(buffer.buffer, vec!['c', 'b', 'a', 'd'])
}

#[test]
fn test_insert_after_capacity_reached() {
    let mut buffer = GapBuffer::new(1);
    buffer.insert('a');
    buffer.set_point(1);
    buffer.insert('b');
    assert_eq!(buffer.buffer, vec!['a', 'b']);
    buffer.set_point(2);
    buffer.insert('c');
    assert_eq!(buffer.buffer, vec!['a', 'b', 'c', '\u{0}']);
    buffer.set_point(3);
    buffer.insert('d');
    assert_eq!(buffer.buffer, vec!['a', 'b', 'c', 'd']);
    buffer.set_point(4);
    buffer.insert('e');
    assert_eq!(buffer.buffer, vec!['a', 'b', 'c', 'd', 'e', '\u{0}', '\u{0}', '\u{0}']);
}

#[test]
fn test_insert_before_capacity_reached() {
    let mut buffer = GapBuffer::new(5);
    buffer.insert('T');
    buffer.set_point(1);
    buffer.insert('e');
    buffer.set_point(2);
    buffer.insert('s');
    buffer.set_point(3);
    buffer.insert('t');
    buffer.set_point(0);
    assert_eq!(buffer.buffer, vec!['T', 'e', 's', 't', '\u{0}']);
    buffer.insert(' ');
    assert_eq!(buffer.buffer, vec![' ', 'T', 'e', 's', 't']);
}
