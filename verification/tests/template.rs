use ohttp_client::template::{fits_framing, MessageTemplate, TemplateError, LENGTH_LIMIT};

/// `POST /x` with two header fields and the content `hi`, in known-length
/// binary form.
fn post_known_length() -> Vec<u8> {
    let mut bytes = vec![0x00];
    bytes.extend_from_slice(b"\x04POST\x05https\x00\x02/x");
    bytes.push(34);
    bytes.extend_from_slice(b"\x04host\x0bexample.org\x0econtent-length\x012");
    bytes.extend_from_slice(b"\x02hi");
    bytes.push(0x00);
    bytes
}

/// The same request in indeterminate-length binary form.
fn post_indeterminate_length() -> Vec<u8> {
    let mut bytes = vec![0x02];
    bytes.extend_from_slice(b"\x04POST\x05https\x00\x02/x");
    bytes.extend_from_slice(b"\x04host\x0bexample.org\x0econtent-length\x012\x00");
    bytes.extend_from_slice(b"\x02hi\x00");
    bytes.push(0x00);
    bytes
}

#[test]
fn text_request_is_encoded_in_known_length_form() {
    let text = b"POST /x HTTP/1.1\r\nHost: example.org\r\nContent-Length: 2\r\n\r\nhi";
    let message = bhttp::Message::read_http(&mut std::io::Cursor::new(&text[..])).unwrap();
    let template = MessageTemplate::from_message(&message).unwrap();
    assert_eq!(template.canonical(), &post_known_length()[..]);
}

#[test]
fn binary_request_in_canonical_form_is_kept() {
    let template = MessageTemplate::from_binary(&post_known_length()).unwrap();
    assert_eq!(template.canonical(), &post_known_length()[..]);
}

#[test]
fn binary_request_of_indeterminate_length_is_made_canonical() {
    let template = MessageTemplate::from_binary(&post_indeterminate_length()).unwrap();
    assert_eq!(template.canonical(), &post_known_length()[..]);
    assert_ne!(template.canonical(), &post_indeterminate_length()[..]);
}

#[test]
fn text_and_binary_input_give_the_same_template() {
    let text = b"POST /x HTTP/1.1\r\nHost: example.org\r\nContent-Length: 2\r\n\r\nhi";
    let message = bhttp::Message::read_http(&mut std::io::Cursor::new(&text[..])).unwrap();
    let from_text = MessageTemplate::from_message(&message).unwrap();
    let from_binary = MessageTemplate::from_binary(&post_indeterminate_length()).unwrap();
    assert_eq!(from_text, from_binary);
}

#[test]
fn truncated_binary_request_gets_its_missing_sections() {
    // A request may end after its control data.
    let template = MessageTemplate::from_binary(b"\x00\x03GET\x05https\x00\x01/").unwrap();
    assert_eq!(template.canonical(), &b"\x00\x03GET\x05https\x00\x01/\x00\x00\x00"[..]);
}

#[test]
fn empty_input_is_no_message() {
    assert_eq!(MessageTemplate::from_binary(&[]), Err(TemplateError::Decode));
}

#[test]
fn unknown_framing_is_no_message() {
    assert_eq!(MessageTemplate::from_binary(&[0x04, 0x00]), Err(TemplateError::Decode));
}

#[test]
fn field_longer_than_the_input_is_no_message() {
    assert_eq!(MessageTemplate::from_binary(b"\x00\x09GET"), Err(TemplateError::Decode));
}

#[test]
fn template_encoding_is_the_same_at_every_read() {
    let template = MessageTemplate::from_binary(&post_indeterminate_length()).unwrap();
    let first = template.canonical().to_vec();
    for _ in 0..5 {
        assert_eq!(template.canonical(), &first[..]);
    }
}

#[test]
fn template_over_canonical_bytes_keeps_them() {
    let template = MessageTemplate::from_canonical(vec![9, 8, 7]);
    assert_eq!(template.canonical(), &[9u8, 8, 7][..]);
}

#[test]
fn lengths_fit_the_framing_below_two_to_the_62() {
    let limit = LENGTH_LIMIT as usize;
    assert_eq!(LENGTH_LIMIT, 1u64 << 62);
    assert!(fits_framing(&[]));
    assert!(fits_framing(&[0]));
    assert!(fits_framing(&[3, 5, 0, 1, 2]));
    // Every byte string counts with eight bytes for its length.
    assert!(fits_framing(&[limit - 9]));
    assert!(!fits_framing(&[limit - 8]));
    assert!(!fits_framing(&[limit]));
    assert!(!fits_framing(&[usize::MAX]));
    assert!(fits_framing(&[limit / 2, limit / 2 - 17]));
    assert!(!fits_framing(&[limit / 2, limit / 2 - 16]));
    assert!(!fits_framing(&[1, usize::MAX, 1]));
    assert!(!fits_framing(&[usize::MAX, usize::MAX, usize::MAX, usize::MAX, usize::MAX]));
}

#[test]
fn message_built_by_hand_is_encoded() {
    let mut message = bhttp::Message::request(
        b"POST".to_vec(),
        b"https".to_vec(),
        Vec::new(),
        b"/x".to_vec(),
    );
    message.put_header("host", "example.org");
    message.put_header("content-length", "2");
    message.write_content(b"hi");
    let template = MessageTemplate::from_message(&message).unwrap();
    assert_eq!(template.canonical(), &post_known_length()[..]);
}

#[test]
fn response_with_interim_responses_and_trailer_is_encoded() {
    let mut bytes = vec![0x03];
    bytes.extend_from_slice(b"\x40\x66\x07running\x01a\x00");
    bytes.extend_from_slice(b"\x40\xc8\x04date\x03now\x00");
    bytes.extend_from_slice(b"\x02ok\x00");
    bytes.extend_from_slice(b"\x04tail\x01z\x00");
    let template = MessageTemplate::from_binary(&bytes).unwrap();
    let mut expected = vec![0x01];
    expected.extend_from_slice(b"\x40\x66\x0a\x07running\x01a");
    expected.extend_from_slice(b"\x40\xc8\x09\x04date\x03now");
    expected.extend_from_slice(b"\x02ok");
    expected.extend_from_slice(b"\x07\x04tail\x01z");
    assert_eq!(template.canonical(), &expected[..]);
}
