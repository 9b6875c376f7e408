use std::io::Cursor;
use twapi_ureq::{FormError, MultiPart};

#[test]
fn empty_body_is_terminal_boundary_only() {
    let mut m = MultiPart::new();
    let boundary = m.boundary.clone();
    let bytes = m.to_bytes();
    assert_eq!(bytes, format!("--{}--", boundary).into_bytes());
}

#[test]
fn boundary_has_fixed_prefix_and_random_suffix() {
    let m = MultiPart::new();
    assert_eq!(m.boundary.len(), 57);
    assert!(m.boundary.starts_with("---------------------------"));
    assert!(m.boundary[27..].bytes().all(|b| b == b'-' || b == b'_' || b.is_ascii_alphanumeric()));
    let m2 = MultiPart::new();
    assert_ne!(m.boundary, m2.boundary);
}

#[test]
fn one_string_part_framing() {
    let mut m = MultiPart::new();
    m.add_string("field", "hi").unwrap();
    let boundary = m.boundary.clone();
    let bytes = m.to_bytes();
    let expected = format!(
        "--{b}\r\nContent-Disposition: form-data; name=\"field\"\r\n\r\nhi\r\n--{b}--",
        b = boundary
    );
    assert_eq!(bytes, expected.into_bytes());
}

#[test]
fn binary_payload_equal_to_boundary_survives() {
    let mut m = MultiPart::new();
    let payload = m.boundary.clone().into_bytes();
    m.add_cursor("media", Cursor::new(payload.clone())).unwrap();
    let boundary = m.boundary.clone();
    let bytes = m.to_bytes();
    let mut expected =
        format!("--{}\r\nContent-Disposition: form-data; name=\"media\"\r\n\r\n", boundary)
            .into_bytes();
    expected.extend_from_slice(&payload);
    expected.extend_from_slice(b"\r\n");
    expected.extend_from_slice(format!("--{}--", boundary).as_bytes());
    assert_eq!(bytes, expected);
}

#[test]
fn to_bytes_is_idempotent() {
    let mut m = MultiPart::new();
    m.add_string("a", "1").unwrap();
    m.add_string("b", "2").unwrap();
    let first = m.to_bytes();
    let second = m.to_bytes();
    assert_eq!(first, second);
}

#[test]
fn parts_appear_in_order_exactly_once() {
    let mut m = MultiPart::new();
    m.add_string("alpha", "one").unwrap();
    m.add_cursor("beta", Cursor::new(vec![1u8, 2, 3])).unwrap();
    let b = m.boundary.clone();
    let bytes = m.to_bytes();
    let mut expected =
        format!("--{}\r\nContent-Disposition: form-data; name=\"alpha\"\r\n\r\none\r\n", b)
            .into_bytes();
    expected
        .extend_from_slice(
            format!("--{}\r\nContent-Disposition: form-data; name=\"beta\"\r\n\r\n", b).as_bytes(),
        );
    expected.extend_from_slice(&[1, 2, 3]);
    expected.extend_from_slice(b"\r\n");
    expected.extend_from_slice(format!("--{}--", b).as_bytes());
    assert_eq!(bytes, expected);
}

#[test]
fn binary_part_keeps_raw_bytes() {
    let mut m = MultiPart::new();
    let data = vec![0u8, 255, 13, 10, 45, 45];
    m.add_cursor("bin", Cursor::new(data.clone())).unwrap();
    let bytes = m.to_bytes();
    let pos = bytes.windows(data.len()).position(|w| w == &data[..]);
    assert!(pos.is_some());
}

#[test]
fn adding_after_finalize_is_an_error() {
    let mut m = MultiPart::new();
    let _ = m.to_bytes();
    assert_eq!(m.add_string("x", "y"), Err(FormError::AlreadyFinalized));
    assert_eq!(m.add_cursor("x", Cursor::new(vec![])), Err(FormError::AlreadyFinalized));
    let mut n = MultiPart::new();
    assert_eq!(n.add_string("x", "y"), Ok(()));
}
