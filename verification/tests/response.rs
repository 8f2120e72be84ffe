use rusticore::Response;

#[test]
/// The wire format: status line with the code's digits and canonical
/// reason, one line per header, a blank line, then the body.
fn construct_exact_bytes() {
    let mut res = Response::new();
    res.headers.push(("X-One", "1"));
    res.headers.push(("X-Two", "2"));
    let bytes = res.construct_response_bytes(&res, "hi");
    assert_eq!(
        bytes,
        b"HTTP/1.1 200 OK\r\nX-One: 1\r\nX-Two: 2\r\n\r\nhi".to_vec()
    );
}

#[test]
/// A code the reason table does not list gets an empty reason phrase.
fn construct_unlisted_code() {
    let mut res = Response::new();
    res.status_code = 299;
    let bytes = res.construct_response_bytes(&res, "");
    assert_eq!(bytes, b"HTTP/1.1 299 \r\n\r\n".to_vec());
}

#[test]
/// The text helper sets the status, appends its `Content-Type`, and
/// serializes the body.
fn text_sets_wire() {
    let mut res = Response::new();
    res.text("hello", 404);
    assert_eq!(res.status_code, 404);
    assert_eq!(
        res.wire,
        Some(
            b"HTTP/1.1 404 Not Found\r\nContent-Type: text/plain; charset=utf-8\r\n\r\nhello"
                .to_vec()
        )
    );
}

#[test]
/// Each content-type helper appends its own `Content-Type` header.
fn helpers_set_content_types() {
    let cases: [(&dyn Fn(&mut Response), &[u8]); 6] = [
        (&|r: &mut Response| r.html("b", 200), b"text/html; charset=utf-8"),
        (&|r: &mut Response| r.json("b", 200), b"application/json"),
        (&|r: &mut Response| r.css("b", 200), b"text/css; charset=utf-8"),
        (&|r: &mut Response| r.javascript("b", 200), b"application/javascript"),
        (&|r: &mut Response| r.xml("b", 200), b"application/xml; charset=utf-8"),
        (&|r: &mut Response| r.image_png("b", 200), b"image/png"),
    ];
    for (call, content_type) in cases {
        let mut res = Response::new();
        call(&mut res);
        let mut expected = b"HTTP/1.1 200 OK\r\nContent-Type: ".to_vec();
        expected.extend_from_slice(content_type);
        expected.extend_from_slice(b"\r\n\r\nb");
        assert_eq!(res.wire, Some(expected));
    }
}

#[test]
/// The remaining content-type helpers, same shape.
fn more_helpers_set_content_types() {
    let cases: [(&dyn Fn(&mut Response), &[u8]); 6] = [
        (&|r: &mut Response| r.pdf("b", 200), b"application/pdf"),
        (&|r: &mut Response| r.zip("b", 200), b"application/zip"),
        (&|r: &mut Response| r.audio_mp3("b", 200), b"audio/mpeg"),
        (&|r: &mut Response| r.video_mp4("b", 200), b"video/mp4"),
        (&|r: &mut Response| r.image_jpeg("b", 200), b"image/jpeg"),
        (&|r: &mut Response| r.image_gif("b", 200), b"image/gif"),
    ];
    for (call, content_type) in cases {
        let mut res = Response::new();
        call(&mut res);
        let mut expected = b"HTTP/1.1 200 OK\r\nContent-Type: ".to_vec();
        expected.extend_from_slice(content_type);
        expected.extend_from_slice(b"\r\n\r\nb");
        assert_eq!(res.wire, Some(expected));
    }
}

#[test]
/// The index handler answers with the index page as plain text.
fn index_serves_welcome() {
    let mut req =
        rusticore::Request::parse(b"GET / HTTP/1.1\r\n\r\n".to_vec()).unwrap();
    let mut res = Response::new();
    rusticore::index(&mut req, &mut res);
    assert_eq!(
        res.wire,
        Some(
            b"HTTP/1.1 200 OK\r\nContent-Type: text/plain; charset=utf-8\r\n\r\nWelcome to the index page!"
                .to_vec()
        )
    );
}
