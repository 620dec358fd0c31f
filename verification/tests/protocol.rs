use mojrg::protocol::{frame_message, read_header, IpAddress, MessageTooLarge, MAX_MESSAGE_LEN};

#[test]
fn a_frame_is_its_length_and_its_body() {
    assert_eq!(frame_message(b"abc"), vec![3, 0, 0, 0, b'a', b'b', b'c']);
    assert_eq!(frame_message(b""), vec![0, 0, 0, 0]);
    let long = frame_message(&[7u8; 0x0102]);
    assert_eq!(&long[..4], &[0x02, 0x01, 0, 0]);
    assert_eq!(long.len(), 4 + 0x0102);
}

#[test]
fn a_frame_reads_back() {
    let body = vec![9u8; 70_000];
    let frame = frame_message(&body);
    let header: [u8; 4] = frame[..4].try_into().unwrap();
    assert_eq!(read_header(&header), Ok(70_000));
    assert_eq!(&frame[4..], body.as_slice());
}

#[test]
fn frames_follow_each_other() {
    let mut stream = frame_message(b"first");
    stream.extend(frame_message(b"second"));
    let mut rest = stream.as_slice();
    for body in [b"first".as_slice(), b"second"] {
        let len = read_header(&rest[..4].try_into().unwrap()).unwrap();
        assert_eq!(&rest[4..4 + len], body);
        rest = &rest[4 + len..];
    }
    assert!(rest.is_empty());
}

#[test]
fn the_longest_message_is_taken_and_the_next_is_not() {
    assert_eq!(MAX_MESSAGE_LEN, 1_048_576);
    assert_eq!(read_header(&1_048_576u32.to_le_bytes()), Ok(1_048_576));
    assert_eq!(read_header(&1_048_577u32.to_le_bytes()), Err(MessageTooLarge));
    assert_eq!(read_header(&[0xff; 4]), Err(MessageTooLarge));
    assert_eq!(read_header(&[0; 4]), Ok(0));
    assert_eq!(MessageTooLarge.message(), "message too large");
}

#[test]
fn a_long_frame_is_refused() {
    let frame = frame_message(&vec![0u8; MAX_MESSAGE_LEN + 1]);
    let header: [u8; 4] = frame[..4].try_into().unwrap();
    assert_eq!(read_header(&header), Err(MessageTooLarge));
}

#[test]
fn addresses_have_four_or_sixteen_bytes() {
    let v4 = IpAddress::V4([192, 168, 0, 7]);
    assert_eq!(v4.octets(), vec![192, 168, 0, 7]);
    assert_eq!(IpAddress::from_octets(&vec![192, 168, 0, 7]), Some(v4));
    let v6 = IpAddress::V6([1, 2, 3, 4, 5, 6, 7, 8, 9, 10, 11, 12, 13, 14, 15, 16]);
    assert_eq!(IpAddress::from_octets(&v6.octets()), Some(v6));
    assert_eq!(IpAddress::from_octets(&vec![]), None);
    assert_eq!(IpAddress::from_octets(&vec![1, 2, 3]), None);
    assert_eq!(IpAddress::from_octets(&vec![0; 17]), None);
}
