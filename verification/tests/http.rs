use worker_pool::http::{classify, render_response, Page};

#[test]
fn root_request_gets_the_greeting() {
    assert_eq!(classify(b"GET / HTTP/1.1\r\n"), Page::Hello);
    assert_eq!(classify(b"GET / HTTP/1.1\r\nHost: localhost\r\n\r\n"), Page::Hello);
}

#[test]
fn buffer_padded_with_zeros_is_classified_by_its_prefix() {
    let mut buffer = [0u8; 1024];
    let line = b"GET / HTTP/1.1\r\n";
    buffer[..line.len()].copy_from_slice(line);
    assert_eq!(classify(&buffer), Page::Hello);
    assert_eq!(classify(&[0u8; 1024]), Page::NotFound);
}

#[test]
fn other_requests_get_the_error_page() {
    assert_eq!(classify(b"GET /other HTTP/1.1\r\n"), Page::NotFound);
    assert_eq!(classify(b"POST / HTTP/1.1\r\n"), Page::NotFound);
    assert_eq!(classify(b"GET / HTTP/1.0\r\n"), Page::NotFound);
    assert_eq!(classify(b"get / http/1.1\r\n"), Page::NotFound);
    assert_eq!(classify(b" GET / HTTP/1.1\r\n"), Page::NotFound);
}

#[test]
fn request_shorter_than_the_line_gets_the_error_page() {
    assert_eq!(classify(b""), Page::NotFound);
    assert_eq!(classify(b"GET"), Page::NotFound);
    assert_eq!(classify(b"GET / HTTP/1.1\r"), Page::NotFound);
}

#[test]
fn pages_have_their_status_lines_and_files() {
    assert_eq!(Page::Hello.status_line(), "HTTP/1.1 200 OK");
    assert_eq!(Page::Hello.file_name(), "hello.html");
    assert_eq!(Page::NotFound.status_line(), "HTTP/1.1 404 NOT FOUND");
    assert_eq!(Page::NotFound.file_name(), "404.html");
}

#[test]
fn response_frames_the_body() {
    assert_eq!(
        render_response("HTTP/1.1 200 OK", "hello"),
        b"HTTP/1.1 200 OK\r\nContent-Length: 5\r\n\r\nhello".to_vec()
    );
    assert_eq!(
        render_response("HTTP/1.1 404 NOT FOUND", "<h1>Oops!</h1>\n"),
        b"HTTP/1.1 404 NOT FOUND\r\nContent-Length: 15\r\n\r\n<h1>Oops!</h1>\n".to_vec()
    );
}

#[test]
fn response_to_an_empty_body_has_length_zero() {
    assert_eq!(
        render_response("HTTP/1.1 200 OK", ""),
        b"HTTP/1.1 200 OK\r\nContent-Length: 0\r\n\r\n".to_vec()
    );
}

#[test]
fn content_length_counts_bytes_in_decimal() {
    let body = "x".repeat(1204);
    let response = render_response("S", &body);
    let head = b"S\r\nContent-Length: 1204\r\n\r\n";
    assert_eq!(&response[..head.len()], &head[..]);
    assert_eq!(response.len(), head.len() + 1204);
    assert_eq!(&response[head.len()..], body.as_bytes());

    let accented = "h\u{e9}llo";
    assert_eq!(
        render_response("S", accented),
        b"S\r\nContent-Length: 6\r\n\r\nh\xc3\xa9llo".to_vec()
    );
    let ten = "0123456789";
    assert_eq!(
        render_response("S", ten),
        b"S\r\nContent-Length: 10\r\n\r\n0123456789".to_vec()
    );
}

#[test]
fn response_agrees_with_formatting() {
    for (status_line, body) in [
        (Page::Hello.status_line(), "<!DOCTYPE html><html>Hello</html>"),
        (Page::NotFound.status_line(), "<!DOCTYPE html><html>Oops</html>\n"),
    ] {
        let expected = format!(
            "{}\r\nContent-Length: {}\r\n\r\n{}",
            status_line,
            body.len(),
            body
        );
        assert_eq!(render_response(status_line, body), expected.into_bytes());
    }
}
