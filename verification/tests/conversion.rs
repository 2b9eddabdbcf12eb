use get_data_url::media_type::content_type_to_media_type;
use get_data_url::media_type::media_type_or_default;
use get_data_url::response_to_data_url;
use get_data_url::Response;

fn received(content_type: Option<&[u8]>, body: &[u8]) -> Response {
    Response { content_type: content_type.map(|value| value.to_vec()), body: body.to_vec() }
}

#[test]
fn test_fetch_data_url() {
    let response = received(Some(b"text/plain"), b"Hello, World!");

    let data_url = response_to_data_url(response);
    assert_eq!(data_url.media_type, "text/plain");
    assert!(data_url.base64_encoded);
    assert_eq!(data_url.data, b"Hello, World!");
}

#[test]
fn test_url_to_data_url_convenience() {
    let body = "\"{\\\"message\\\": \\\"Hello, World!\\\"}\"";
    let response = received(Some(b"application/json"), body.as_bytes());

    let data_url_str = response_to_data_url(response).to_string();
    println!("{}", data_url_str);
    assert!(data_url_str.starts_with("data:application/json;base64,"));
}

#[test]
fn response_without_content_type_gets_the_fallback() {
    let url = response_to_data_url(received(None, b"\x00\x01\x02"));
    assert_eq!(url.media_type, "application/octet-stream");
    assert!(url.base64_encoded);
    assert_eq!(url.data, vec![0, 1, 2]);
}

#[test]
fn response_with_json_content_type_is_base64_json() {
    let url = response_to_data_url(received(Some(b"application/json"), b"{}"));
    assert!(url.base64_encoded);
    assert!(url.media_type.starts_with("application/json"));
    assert_eq!(url.media_type, "application/json");
    assert_eq!(url.to_string(), "data:application/json;base64,e30");
}

#[test]
fn response_body_is_taken_byte_for_byte() {
    let body: Vec<u8> = (0..=255u8).collect();
    let url = response_to_data_url(received(Some(b"application/octet-stream"), &body));
    assert_eq!(url.data, body);
    let text = url.to_string();
    let payload = text.strip_prefix("data:application/octet-stream;base64,").unwrap();
    assert_eq!(base64_url::decode(payload).unwrap(), body);
}

#[test]
fn response_with_empty_body_converts() {
    let url = response_to_data_url(received(Some(b"text/plain"), b""));
    assert_eq!(url.data, Vec::<u8>::new());
    assert_eq!(url.to_string(), "data:text/plain;base64,");
}

#[test]
fn response_is_base64_even_for_text() {
    for content_type in [&b"text/plain"[..], b"text/html; charset=utf-8", b"nonsense", b""] {
        let url = response_to_data_url(received(Some(content_type), b"plain text"));
        assert!(url.base64_encoded);
    }
}

#[test]
fn response_decodes_back_to_hello_world() {
    let url = response_to_data_url(received(Some(b"text/plain"), b"Hello, World!"));
    let text = url.to_string();
    assert_eq!(text, "data:text/plain;base64,SGVsbG8sIFdvcmxkIQ");
    let payload = text.strip_prefix("data:text/plain;base64,").unwrap();
    assert_eq!(base64_url::decode(payload).unwrap(), b"Hello, World!");
}

#[test]
fn media_type_of_a_missing_header_is_the_fallback() {
    assert_eq!(content_type_to_media_type(None), "application/octet-stream");
}

#[test]
fn media_type_of_a_plain_header_is_the_header() {
    assert_eq!(content_type_to_media_type(Some(b"text/plain")), "text/plain");
    assert_eq!(content_type_to_media_type(Some(b"image/svg+xml")), "image/svg+xml");
    assert_eq!(content_type_to_media_type(Some(b"*/*")), "*/*");
}

#[test]
fn media_type_keeps_its_parameters() {
    assert_eq!(
        content_type_to_media_type(Some(b"text/html; charset=utf-8")),
        "text/html; charset=utf-8"
    );
    assert_eq!(
        content_type_to_media_type(Some(b"multipart/form-data; boundary=\"a,b\"")),
        "multipart/form-data; boundary=\"a,b\""
    );
}

#[test]
fn media_type_is_put_in_lower_case() {
    assert_eq!(content_type_to_media_type(Some(b"TEXT/Plain")), "text/plain");
    assert_eq!(
        content_type_to_media_type(Some(b"Text/HTML; Charset=UTF-8")),
        "text/html; charset=utf-8"
    );
}

#[test]
fn media_type_of_an_unparseable_header_is_the_fallback() {
    for header in [&b""[..], b"text", b"/plain", b"text plain", b"text/plain; charset", b"a/b; c=\"d"]
    {
        assert_eq!(content_type_to_media_type(Some(header)), "application/octet-stream");
    }
}

#[test]
fn media_type_of_a_header_that_is_not_text_is_the_fallback() {
    assert_eq!(content_type_to_media_type(Some(b"\xff\xfe")), "application/octet-stream");
    assert_eq!(content_type_to_media_type(Some(b"text/plain\xff")), "application/octet-stream");
    assert_eq!(
        content_type_to_media_type(Some(b"text/plain; a=\"\xc3\xa9\"")),
        "application/octet-stream"
    );
    assert_eq!(content_type_to_media_type(Some(b"text/plain\n")), "application/octet-stream");
    assert_eq!(content_type_to_media_type(Some(b"text/plain\x7f")), "application/octet-stream");
    assert_eq!(content_type_to_media_type(Some(b"text/plain\t")), "application/octet-stream");
}

#[test]
fn parsed_media_type_wins_over_the_fallback() {
    assert_eq!(media_type_or_default(Some("text/html".to_string())), "text/html");
    assert_eq!(media_type_or_default(Some(String::new())), "");
    assert_eq!(media_type_or_default(None), "application/octet-stream");
}
