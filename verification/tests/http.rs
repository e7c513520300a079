use http_server::http::{response, route, Page, Route};

#[test]
fn the_root_gets_the_greeting() {
    assert_eq!(route("GET / HTTP/1.1"), Route { page: Page::Hello, delay_secs: 0 });
}

#[test]
fn sleep_gets_the_greeting_after_five_seconds() {
    assert_eq!(route("GET /sleep HTTP/1.1"), Route { page: Page::Hello, delay_secs: 5 });
}

#[test]
fn everything_else_gets_the_page_for_the_unknown() {
    let unknown = Route { page: Page::NotFound, delay_secs: 0 };
    assert_eq!(route("GET /missing HTTP/1.1"), unknown);
    assert_eq!(route("POST / HTTP/1.1"), unknown);
    assert_eq!(route("GET / HTTP/1.0"), unknown);
    assert_eq!(route("GET / HTTP/1.1 "), unknown);
    assert_eq!(route(" GET / HTTP/1.1"), unknown);
    assert_eq!(route("get / http/1.1"), unknown);
    assert_eq!(route("GET /sleep/ HTTP/1.1"), unknown);
    assert_eq!(route(""), unknown);
}

#[test]
fn each_page_has_its_status_line_and_file() {
    assert_eq!(Page::Hello.status_line(), "HTTP/1.1 200 gotcha homie");
    assert_eq!(Page::Hello.file_name(), "pages/hello.html");
    assert_eq!(Page::NotFound.status_line(), "HTTP/1.1 404 couldn't find that sh*t");
    assert_eq!(Page::NotFound.file_name(), "pages/404.html");
}

#[test]
fn a_response_carries_the_length_of_its_content() {
    assert_eq!(
        response("HTTP/1.1 200 gotcha homie", "hi"),
        "HTTP/1.1 200 gotcha homie\r\nContent-Length: 2\r\n\r\nhi"
    );
}

#[test]
fn an_empty_content_has_length_zero() {
    assert_eq!(
        response("HTTP/1.1 204 nothing", ""),
        "HTTP/1.1 204 nothing\r\nContent-Length: 0\r\n\r\n"
    );
}

#[test]
fn the_length_is_written_in_decimal_without_leading_zeros() {
    for length in [1usize, 9, 10, 11, 99, 100, 101, 1000, 4096, 65535, 120_007] {
        let content = "x".repeat(length);
        let expected = format!("S\r\nContent-Length: {}\r\n\r\n{}", length, content);
        assert_eq!(response("S", &content), expected);
    }
}

#[test]
fn the_length_counts_bytes_not_characters() {
    assert_eq!(response("S", "héllo"), "S\r\nContent-Length: 6\r\n\r\nhéllo");
    assert_eq!(response("S", "日本"), "S\r\nContent-Length: 6\r\n\r\n日本");
}

#[test]
fn the_response_is_what_formatting_the_parts_gives() {
    let status_line = Page::NotFound.status_line();
    let content = "<html>\n<body>nothing here</body>\n</html>\n";
    let content_length = content.len();
    let expected = format!("{status_line}\r\nContent-Length: {content_length}\r\n\r\n{content}");
    assert_eq!(response(status_line, content), expected);
}
