use terminal_forwarder::output_buffer::OutputBuffer;

#[test]
fn new_buffer_is_empty() {
    let buffer = OutputBuffer::new();
    assert!(buffer.is_empty());
    assert_eq!(buffer.len(), 0);
}

#[test]
fn append_then_drain_returns_bytes_in_order() {
    let mut buffer = OutputBuffer::new();
    buffer.append(b"hel");
    buffer.append(b"lo\n");
    assert_eq!(buffer.len(), 6);
    assert_eq!(buffer.drain(), b"hello\n".to_vec());
    assert!(buffer.is_empty());
}

#[test]
fn drain_does_not_redeliver() {
    let mut buffer = OutputBuffer::new();
    buffer.append(b"once");
    assert_eq!(buffer.drain(), b"once".to_vec());
    assert_eq!(buffer.drain(), Vec::<u8>::new());
    buffer.append(b"twice");
    assert_eq!(buffer.drain(), b"twice".to_vec());
}
