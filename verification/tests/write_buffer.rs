use httpbis::codec::write_buffer::WriteBuffer;

#[test]
fn remaining() {
    let mut buf = WriteBuffer::new();
    buf.extend_from_slice(b"abcd");
    assert_eq!(4, buf.remaining());

    assert_eq!(b'a', buf.get_u8());
    assert_eq!(b'b', buf.get_u8());
    assert_eq!(2, buf.remaining());

    buf.extend_from_slice(b"ef");
    assert_eq!(b'c', buf.get_u8());
    assert_eq!(b'd', buf.get_u8());
    assert_eq!(b'e', buf.get_u8());
    assert_eq!(b'f', buf.get_u8());
    assert_eq!(0, buf.remaining());
}

#[test]
fn write_buffer_bytes_and_advance() {
    let mut buf = WriteBuffer::new();
    buf.extend_from_vec(vec![1, 2, 3]);
    buf.extend_from_bytes(bytes::Bytes::from(vec![4, 5]));
    buf.extend_from_bytes_ref(&bytes::Bytes::from(vec![6]));
    assert_eq!(&[1, 2, 3, 4, 5, 6][..], buf.bytes());
    buf.advance(2);
    assert_eq!(&[3, 4, 5, 6][..], buf.bytes());
    buf.reserve(100);
    assert_eq!(&[3, 4, 5, 6][..], buf.bytes());
    assert_eq!(vec![3, 4, 5, 6], buf.into_vec());
}

#[test]
fn write_buffer_into_bytes_drops_consumed_prefix() {
    let mut buf = WriteBuffer::new();
    buf.extend_from_slice(b"hello");
    buf.advance(1);
    let bytes = buf.into_bytes();
    assert_eq!(&b"ello"[..], &bytes[..]);
}

#[test]
fn tail_vec_patches_relative_to_unread_part() {
    let mut buf = WriteBuffer::new();
    buf.extend_from_slice(b"xxabcdef");
    buf.advance(2);
    {
        let mut tail = buf.tail_vec();
        assert_eq!(6, tail.remaining());
        tail.patch_buf(1, b"BC");
        tail.extend_from_slice(b"gh");
        tail.reserve(64);
        tail.compact();
        assert_eq!(8, tail.remaining());
    }
    assert_eq!(&b"aBCdefgh"[..], buf.bytes());
}

#[test]
fn write_buffer_extend_from_iter_keeps_order() {
    let mut buf = WriteBuffer::new();
    buf.extend_from_slice(b"ab");
    buf.advance(1);
    buf.extend_from_iter(b"cde".iter().cloned());
    buf.extend_from_iter(std::iter::empty());
    buf.extend_from_iter((0u8..3).map(|i| b'x' + i));
    assert_eq!(&b"bcdexyz"[..], buf.bytes());
}
