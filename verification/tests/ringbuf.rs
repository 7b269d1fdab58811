use lau_ringbuf::RingBuf;

// -- RingBuf basic tests --

#[test]
fn ringbuf_new_is_empty() {
    let buf: RingBuf<i32, 4> = RingBuf::new();
    assert!(buf.is_empty());
    assert!(!buf.is_full());
    assert_eq!(buf.len(), 0);
    assert_eq!(buf.capacity(), 4);
    assert_eq!(buf.available(), 4);
}

#[test]
fn ringbuf_write_read() {
    let mut buf: RingBuf<i32, 4> = RingBuf::new();
    assert!(buf.write(1));
    assert!(buf.write(2));
    assert_eq!(buf.len(), 2);
    assert_eq!(buf.read(), Some(1));
    assert_eq!(buf.read(), Some(2));
    assert_eq!(buf.read(), None);
}

#[test]
fn ringbuf_full_rejects() {
    let mut buf: RingBuf<i32, 3> = RingBuf::new();
    assert!(buf.write(1));
    assert!(buf.write(2));
    assert!(buf.write(3));
    assert!(buf.is_full());
    assert!(!buf.write(4));
}

#[test]
fn ringbuf_write_overwrite() {
    let mut buf: RingBuf<i32, 3> = RingBuf::new();
    buf.write_overwrite(1);
    buf.write_overwrite(2);
    buf.write_overwrite(3);
    buf.write_overwrite(4); // overwrites 1
    assert_eq!(buf.len(), 3);
    assert_eq!(buf.read(), Some(2));
    assert_eq!(buf.read(), Some(3));
    assert_eq!(buf.read(), Some(4));
    assert_eq!(buf.read(), None);
}

#[test]
fn ringbuf_peek() {
    let mut buf: RingBuf<i32, 4> = RingBuf::new();
    assert_eq!(buf.peek(), None);
    buf.write(42);
    assert_eq!(buf.peek(), Some(&42));
    assert_eq!(buf.len(), 1); // peek doesn't consume
}

#[test]
fn ringbuf_clear() {
    let mut buf: RingBuf<i32, 4> = RingBuf::new();
    buf.write(1);
    buf.write(2);
    buf.clear();
    assert!(buf.is_empty());
    assert_eq!(buf.available(), 4);
}

#[test]
fn ringbuf_wrap_around() {
    let mut buf: RingBuf<i32, 3> = RingBuf::new();
    buf.write(1);
    buf.write(2);
    buf.read(); // remove 1
    buf.write(3);
    buf.write(4); // wraps around
    assert_eq!(buf.read(), Some(2));
    assert_eq!(buf.read(), Some(3));
    assert_eq!(buf.read(), Some(4));
}

#[test]
fn ringbuf_default() {
    let buf: RingBuf<i32, 4> = RingBuf::default();
    assert!(buf.is_empty());
}
