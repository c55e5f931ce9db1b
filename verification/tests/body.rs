use bytes::Bytes;
use proxy::read_request_body::ByteBody;

#[test]
fn new_body_holds_the_bytes() {
    let body = ByteBody::new(vec![1, 2, 3]);
    assert_eq!(body.as_slice(), &[1u8, 2, 3][..]);
    assert_eq!(body.size(), 3);
}

#[test]
fn empty_body_has_no_bytes() {
    let body = ByteBody::new(Vec::new());
    assert_eq!(body.as_slice(), &[] as &[u8]);
    assert_eq!(body.size(), 0);
    assert_eq!(body.frame(), Bytes::new());
}

#[test]
fn body_from_a_buffer_holds_its_bytes() {
    let body = ByteBody::from_bytes(Bytes::from_static(b"{\"username\":\"nick\"}"));
    assert_eq!(body.as_slice(), b"{\"username\":\"nick\"}");
    let sliced = Bytes::from(vec![9u8, 8, 7, 6]).slice(1..3);
    assert_eq!(ByteBody::from_bytes(sliced).as_slice(), &[8u8, 7][..]);
}

#[test]
fn frame_is_the_whole_body() {
    let body = ByteBody::new(b"hello".to_vec());
    assert_eq!(body.frame(), Bytes::from_static(b"hello"));
    assert_eq!(body.frame(), body.frame());
}

#[test]
fn copies_are_byte_identical() {
    for len in [0usize, 1, 2, 255, 4096] {
        let data: Vec<u8> = (0..len).map(|i| (i % 251) as u8).collect();
        let body = ByteBody::new(data.clone());
        let mut copies = Vec::new();
        for _ in 0..5 {
            copies.push(body.clone());
        }
        let copy_of_copy = copies[4].clone();
        for copy in &copies {
            assert_eq!(copy.as_slice(), &data[..]);
            assert_eq!(copy.size(), len as u64);
        }
        assert_eq!(copy_of_copy.as_slice(), &data[..]);
        assert_eq!(body.as_slice(), &data[..]);
    }
}

#[test]
fn copies_share_the_bytes() {
    let body = ByteBody::new(vec![5u8; 64]);
    let copy = body.clone();
    assert_eq!(body.as_slice().as_ptr(), copy.as_slice().as_ptr());
}
