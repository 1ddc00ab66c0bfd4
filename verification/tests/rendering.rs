use httpie::text::{digit_char, lower_char, push_decimal, same_text, same_text_ignoring_case};
use httpie::utils::headers::{
    content_type, find_content_type, header_value_text, is_content_type_name, is_printable,
    visible_text,
};
use httpie::utils::printer::{
    body_as_received, body_formatted, body_malformed, declares_json, get_content_type, print_body,
    print_headers, print_res, print_status, text_of, RenderError, Rendering, Span, Style,
};
use httpie::utils::response::{Header, HttpVersion, MediaType, RawResponse};
use httpie::utils::status::{status_line, status_line_with, version_text};

fn header(name: &str, value: &str) -> Header {
    Header { name: name.to_string(), value: value.as_bytes().to_vec() }
}

fn response(status: u16, headers: Vec<Header>, body: &str) -> RawResponse {
    RawResponse { version: HttpVersion::Http11, status, headers, body: body.to_string() }
}

fn json() -> Option<MediaType> {
    Some(MediaType { essence: "application/json".to_string() })
}

fn spans(rendered: &[Span]) -> Vec<(Style, String)> {
    rendered.iter().map(|s| (s.style, s.text.clone())).collect()
}

fn span(style: Style, text: &str) -> (Style, String) {
    (style, text.to_string())
}

fn decimal(n: u16) -> String {
    let mut text = String::from("n=");
    push_decimal(&mut text, n);
    text
}

#[test]
fn decimal_numerals_have_no_leading_zeros() {
    assert_eq!(decimal(0), "n=0");
    assert_eq!(decimal(7), "n=7");
    assert_eq!(decimal(10), "n=10");
    assert_eq!(decimal(200), "n=200");
    assert_eq!(decimal(65535), "n=65535");
}

#[test]
fn digits_run_from_zero_to_f() {
    let digits: String = (0u8..16).map(digit_char).collect();
    assert_eq!(digits, "0123456789abcdef");
}

#[test]
fn only_ascii_capitals_are_lowered() {
    assert_eq!(lower_char('A'), 'a');
    assert_eq!(lower_char('Z'), 'z');
    assert_eq!(lower_char('m'), 'm');
    assert_eq!(lower_char('-'), '-');
    assert_eq!(lower_char('@'), '@');
    assert_eq!(lower_char('['), '[');
    assert_eq!(lower_char('É'), 'É');
}

#[test]
fn texts_compare_with_and_without_case() {
    assert!(same_text("abc", "abc"));
    assert!(!same_text("abc", "abC"));
    assert!(!same_text("abc", "abcd"));
    assert!(same_text_ignoring_case("Content-Type", "content-type"));
    assert!(same_text_ignoring_case("", ""));
    assert!(!same_text_ignoring_case("content-type", "content_type"));
    assert!(!same_text_ignoring_case("content-type", "content-typ"));
}

#[test]
fn versions_are_written_as_in_the_protocol() {
    assert_eq!(version_text(HttpVersion::Http09), "HTTP/0.9");
    assert_eq!(version_text(HttpVersion::Http10), "HTTP/1.0");
    assert_eq!(version_text(HttpVersion::Http11), "HTTP/1.1");
    assert_eq!(version_text(HttpVersion::H2), "HTTP/2.0");
    assert_eq!(version_text(HttpVersion::H3), "HTTP/3.0");
}

#[test]
fn status_line_joins_version_code_and_reason() {
    assert_eq!(status_line_with(HttpVersion::Http11, 200, Some("OK")), "HTTP/1.1 200 OK");
    assert_eq!(status_line_with(HttpVersion::H2, 418, Some("I'm a teapot")), "HTTP/2.0 418 I'm a teapot");
    assert_eq!(status_line_with(HttpVersion::Http10, 599, None), "HTTP/1.0 599 <unknown status code>");
}

#[test]
fn status_line_uses_the_canonical_reason() {
    assert_eq!(status_line(HttpVersion::Http11, 200), "HTTP/1.1 200 OK");
    assert_eq!(status_line(HttpVersion::Http11, 404), "HTTP/1.1 404 Not Found");
    assert_eq!(status_line(HttpVersion::H2, 500), "HTTP/2.0 500 Internal Server Error");
}

#[test]
fn status_code_without_reason_is_marked_unknown() {
    assert_eq!(status_line(HttpVersion::Http11, 299), "HTTP/1.1 299 <unknown status code>");
    assert_eq!(status_line(HttpVersion::Http11, 99), "HTTP/1.1 99 <unknown status code>");
    assert_eq!(status_line(HttpVersion::Http11, 1000), "HTTP/1.1 1000 <unknown status code>");
}

#[test]
fn status_block_is_blue_and_ends_with_an_empty_line() {
    let block = print_status(&response(201, Vec::new(), "ignored"));
    assert_eq!(spans(&block), vec![span(Style::Blue, "HTTP/1.1 201 Created"), span(Style::Plain, "\n\n")]);
}

#[test]
fn visible_header_value_is_shown_unchanged() {
    let value = b"text/html; charset=\"utf-8\"\t\\ ~".to_vec();
    assert!(is_printable(&value));
    assert_eq!(header_value_text(&value), "text/html; charset=\"utf-8\"\t\\ ~");
    assert_eq!(visible_text(&value), Some("text/html; charset=\"utf-8\"\t\\ ~".to_string()));
}

#[test]
fn other_bytes_of_a_header_value_are_escaped() {
    let value = vec![b'a', 0x07, b'b', 0x7f, 0xff, 0x00, b'\n', 0x1f, 0x80];
    assert!(!is_printable(&value));
    assert_eq!(header_value_text(&value), "a\\x07b\\x7f\\xff\\x00\\x0a\\x1f\\x80");
    assert_eq!(visible_text(&value), None);
}

#[test]
fn empty_header_value_is_empty_text() {
    assert!(is_printable(&Vec::new()));
    assert_eq!(header_value_text(&Vec::new()), "");
    assert_eq!(visible_text(&Vec::new()), Some(String::new()));
}

#[test]
fn headers_are_rendered_in_the_order_given() {
    let headers = vec![header("server", "nginx"), header("content-type", "text/plain"), header("age", "0"), header("server", "second")];
    let block = print_headers(&response(200, headers, ""));
    assert_eq!(
        spans(&block.spans),
        vec![
            span(Style::Green, "server"),
            span(Style::Plain, ": nginx\n"),
            span(Style::Green, "content-type"),
            span(Style::Plain, ": text/plain\n"),
            span(Style::Green, "age"),
            span(Style::Plain, ": 0\n"),
            span(Style::Green, "server"),
            span(Style::Plain, ": second\n"),
            span(Style::Plain, "\n"),
        ]
    );
    assert!(block.errors.is_empty());
}

#[test]
fn header_order_is_not_sorted() {
    let headers = vec![header("z", "1"), header("a", "2"), header("m", "3")];
    let block = print_headers(&response(200, headers, ""));
    assert_eq!(text_of(&block.spans), "z: 1\na: 2\nm: 3\n\n");
}

#[test]
fn no_headers_render_as_an_empty_line() {
    let block = print_headers(&response(200, Vec::new(), ""));
    assert_eq!(spans(&block.spans), vec![span(Style::Plain, "\n")]);
    assert!(block.errors.is_empty());
}

#[test]
fn undecodable_header_values_are_escaped_and_reported() {
    let headers = vec![
        header("a", "fine"),
        Header { name: "b".to_string(), value: vec![0xc3, 0x28] },
        header("c", "fine too"),
        Header { name: "d".to_string(), value: vec![b'x', 0x01] },
    ];
    let block = print_headers(&response(200, headers, ""));
    assert_eq!(text_of(&block.spans), "a: fine\nb: \\xc3(\nc: fine too\nd: x\\x01\n\n");
    assert_eq!(
        block.errors,
        vec![RenderError::HeaderDecodeError { index: 1 }, RenderError::HeaderDecodeError { index: 3 }]
    );
}

#[test]
fn content_type_name_is_matched_in_any_case() {
    assert!(is_content_type_name("content-type"));
    assert!(is_content_type_name("Content-Type"));
    assert!(is_content_type_name("CONTENT-TYPE"));
    assert!(!is_content_type_name("content-length"));
    assert!(!is_content_type_name("content-type "));
    assert!(!is_content_type_name(""));
}

#[test]
fn first_content_type_header_is_found() {
    let headers = vec![header("date", "today"), header("Content-Type", "text/html"), header("content-type", "application/json")];
    assert_eq!(find_content_type(&headers), Some(&b"text/html".to_vec()));
    assert_eq!(find_content_type(&vec![header("date", "today")]), None);
    assert_eq!(find_content_type(&Vec::new()), None);
}

#[test]
fn content_type_is_the_essence_of_the_media_type() {
    let json = content_type(&vec![header("Content-Type", "application/json")]).unwrap();
    assert_eq!(json.essence, "application/json");
    let with_charset = content_type(&vec![header("content-type", "Application/JSON; charset=utf-8")]).unwrap();
    assert_eq!(with_charset.essence, "application/json");
    let html = content_type(&vec![header("content-type", "text/html; charset=UTF-8")]).unwrap();
    assert_eq!(html.essence, "text/html");
}

#[test]
fn missing_content_type_header_gives_none() {
    assert!(content_type(&Vec::new()).is_none());
    assert!(content_type(&vec![header("content-length", "12")]).is_none());
    assert!(get_content_type(&response(200, vec![header("content-length", "12")], "")).is_none());
}

#[test]
fn content_type_that_is_no_media_type_gives_none() {
    assert!(content_type(&vec![header("content-type", "not a mime")]).is_none());
    assert!(content_type(&vec![header("content-type", "")]).is_none());
    assert!(content_type(&vec![header("content-type", "json")]).is_none());
}

#[test]
fn content_type_that_is_no_text_gives_none() {
    let headers = vec![Header { name: "content-type".to_string(), value: vec![b'a', b'/', b'b', 0xff] }];
    assert!(content_type(&headers).is_none());
    assert!(get_content_type(&response(200, headers, "")).is_none());
}

#[test]
fn only_the_json_essence_declares_json() {
    assert!(declares_json(&Some(MediaType { essence: "application/json".to_string() })));
    assert!(!declares_json(&Some(MediaType { essence: "text/json".to_string() })));
    assert!(!declares_json(&Some(MediaType { essence: "application/json5".to_string() })));
    assert!(!declares_json(&None));
}

#[test]
fn json_body_is_pretty_printed_in_yellow() {
    let res = response(200, vec![header("Content-Type", "application/json")], "{\"a\":1,\"b\":2}");
    let block = print_body(get_content_type(&res), &res.body);
    assert_eq!(
        spans(&block.spans),
        vec![span(Style::Yellow, "{\n  \"a\": 1,\n  \"b\": 2\n}"), span(Style::Plain, "\n")]
    );
    assert!(block.errors.is_empty());
}

#[test]
fn pretty_printed_json_parses_to_the_same_value() {
    let body = "{\"a\":1,\"b\":2}";
    let res = response(200, vec![header("Content-Type", "application/json")], body);
    let block = print_body(get_content_type(&res), &res.body);
    let pretty = &block.spans[0].text;
    assert!(pretty.lines().count() > 1);
    assert!(pretty.lines().any(|line| line.starts_with("  ")));
    let before: serde_json::Value = serde_json::from_str(body).unwrap();
    let after: serde_json::Value = serde_json::from_str(pretty).unwrap();
    assert_eq!(before, after);
}

#[test]
fn nested_json_keeps_its_value_when_pretty_printed() {
    let body = "{\"list\":[1,2,{\"deep\":\"a, b: c\"}],\"empty\":{},\"text\":\"q\\\"uote\"}";
    let block = print_body(json(), &body.to_string());
    let before: serde_json::Value = serde_json::from_str(body).unwrap();
    let after: serde_json::Value = serde_json::from_str(&block.spans[0].text).unwrap();
    assert_eq!(before, after);
    assert_eq!(block.spans[0].style, Style::Yellow);
}

#[test]
fn body_without_content_type_is_shown_as_received() {
    let block = print_body(None, &"hello world".to_string());
    assert_eq!(spans(&block.spans), vec![span(Style::Plain, "hello world"), span(Style::Plain, "\n")]);
    assert!(block.errors.is_empty());
}

#[test]
fn body_of_another_content_type_is_shown_as_received() {
    let res = response(200, vec![header("content-type", "text/plain")], "{\"a\":1}");
    let block = print_body(get_content_type(&res), &res.body);
    assert_eq!(spans(&block.spans), vec![span(Style::Plain, "{\"a\":1}"), span(Style::Plain, "\n")]);
    assert!(block.errors.is_empty());
}

#[test]
fn raw_body_keeps_its_own_lines_and_spaces() {
    let block = body_as_received("  two\n   lines  ");
    assert_eq!(spans(&block), vec![span(Style::Plain, "  two\n   lines  "), span(Style::Plain, "\n")]);
}

#[test]
fn formatted_body_is_shown_in_yellow() {
    let block = body_formatted("[1]", Ok("[\n  1\n]".to_string()));
    assert_eq!(spans(&block.spans), vec![span(Style::Yellow, "[\n  1\n]"), span(Style::Plain, "\n")]);
    assert!(block.errors.is_empty());
}

#[test]
fn body_that_the_formatter_turns_down_is_shown_as_malformed() {
    let block = body_formatted("[1]", Err("unexpected end".to_string()));
    assert_eq!(spans(&block.spans), vec![span(Style::Plain, "[1]"), span(Style::Plain, "\n")]);
    assert_eq!(block.errors, vec![RenderError::MalformedResponseBody]);
}

#[test]
fn malformed_body_is_shown_as_received_with_an_error() {
    let block = body_malformed("{oops");
    assert_eq!(spans(&block.spans), vec![span(Style::Plain, "{oops"), span(Style::Plain, "\n")]);
    assert_eq!(block.errors, vec![RenderError::MalformedResponseBody]);
}

#[test]
fn json_declared_body_that_is_no_json_is_shown_raw_and_reported() {
    let block = print_body(json(), &"{oops".to_string());
    assert_eq!(spans(&block.spans), vec![span(Style::Plain, "{oops"), span(Style::Plain, "\n")]);
    assert_eq!(block.errors, vec![RenderError::MalformedResponseBody]);
}

#[test]
fn json_declared_bodies_that_are_no_json_are_never_reformatted() {
    for body in ["", "   ", "hello world", "{\"a\":1,}", "[1,2", "{\"a\" 1}", "<html></html>", "{\"a\":1} trailing", "[01]"] {
        let block = print_body(json(), &body.to_string());
        assert_eq!(spans(&block.spans), vec![span(Style::Plain, body), span(Style::Plain, "\n")]);
        assert_eq!(block.errors, vec![RenderError::MalformedResponseBody]);
    }
}

#[test]
fn json_body_with_whitespace_around_it_is_pretty_printed() {
    let block = print_body(json(), &" \n [1, {\"a\" : null}]\t".to_string());
    assert_eq!(block.spans[0].style, Style::Yellow);
    assert_eq!(block.spans[0].text, "[\n  1,\n  {\n    \"a\": null\n  }\n]");
    assert!(block.errors.is_empty());
}

#[test]
fn malformed_json_under_another_content_type_is_not_reported() {
    let block = print_body(Some(MediaType { essence: "text/plain".to_string() }), &"{oops".to_string());
    assert_eq!(spans(&block.spans), vec![span(Style::Plain, "{oops"), span(Style::Plain, "\n")]);
    assert!(block.errors.is_empty());
    let none = print_body(None, &"{oops".to_string());
    assert!(none.errors.is_empty());
}

#[test]
fn plain_text_joins_the_spans() {
    let list = vec![
        Span { style: Style::Blue, text: "a".to_string() },
        Span { style: Style::Plain, text: String::new() },
        Span { style: Style::Green, text: "bc".to_string() },
    ];
    assert_eq!(text_of(&list), "abc");
    assert_eq!(text_of(&Vec::new()), "");
}

fn json_response() -> RawResponse {
    RawResponse {
        version: HttpVersion::Http11,
        status: 200,
        headers: vec![header("Content-Type", "application/json"), header("content-length", "13")],
        body: "{\"a\":1,\"b\":2}".to_string(),
    }
}

#[test]
fn json_response_is_rendered_block_by_block() {
    let out: Rendering = print_res(&json_response());
    assert_eq!(
        spans(&out.spans),
        vec![
            span(Style::Blue, "HTTP/1.1 200 OK"),
            span(Style::Plain, "\n\n"),
            span(Style::Green, "Content-Type"),
            span(Style::Plain, ": application/json\n"),
            span(Style::Green, "content-length"),
            span(Style::Plain, ": 13\n"),
            span(Style::Plain, "\n"),
            span(Style::Yellow, "{\n  \"a\": 1,\n  \"b\": 2\n}"),
            span(Style::Plain, "\n"),
        ]
    );
    assert!(out.errors.is_empty());
}

#[test]
fn response_without_content_type_shows_the_literal_body() {
    let res = RawResponse {
        version: HttpVersion::Http11,
        status: 200,
        headers: vec![header("server", "test")],
        body: "hello world".to_string(),
    };
    let out = print_res(&res);
    assert_eq!(text_of(&out.spans), "HTTP/1.1 200 OK\n\nserver: test\n\nhello world\n");
    assert_eq!(out.spans[out.spans.len() - 2].text, "hello world");
    assert_eq!(out.spans[out.spans.len() - 2].style, Style::Plain);
    assert!(out.errors.is_empty());
}

#[test]
fn response_without_headers_and_body_still_has_its_three_blocks() {
    let res = RawResponse { version: HttpVersion::H2, status: 204, headers: Vec::new(), body: String::new() };
    let out = print_res(&res);
    assert_eq!(text_of(&out.spans), "HTTP/2.0 204 No Content\n\n\n\n");
    assert_eq!(out.spans.len(), 5);
}

#[test]
fn response_that_declares_json_over_a_broken_body_shows_the_body_raw() {
    let res = response(200, vec![header("Content-Type", "application/json; charset=utf-8")], "{oops");
    let out = print_res(&res);
    assert_eq!(
        spans(&out.spans),
        vec![
            span(Style::Blue, "HTTP/1.1 200 OK"),
            span(Style::Plain, "\n\n"),
            span(Style::Green, "Content-Type"),
            span(Style::Plain, ": application/json; charset=utf-8\n"),
            span(Style::Plain, "\n"),
            span(Style::Plain, "{oops"),
            span(Style::Plain, "\n"),
        ]
    );
    assert_eq!(out.errors, vec![RenderError::MalformedResponseBody]);
}

#[test]
fn response_whose_content_type_is_no_media_type_shows_the_body_raw() {
    let res = response(200, vec![header("content-type", "not a mime")], "{\"a\":1}");
    let out = print_res(&res);
    assert_eq!(text_of(&out.spans), "HTTP/1.1 200 OK\n\ncontent-type: not a mime\n\n{\"a\":1}\n");
    assert_eq!(out.spans[out.spans.len() - 2].style, Style::Plain);
    assert!(out.errors.is_empty());
}

#[test]
fn undecodable_header_is_reported_and_the_body_is_not() {
    let res = RawResponse {
        version: HttpVersion::Http10,
        status: 502,
        headers: vec![Header { name: "x-raw".to_string(), value: vec![0x00] }, header("content-type", "text/plain")],
        body: "oops".to_string(),
    };
    let out = print_res(&res);
    assert_eq!(text_of(&out.spans), "HTTP/1.0 502 Bad Gateway\n\nx-raw: \\x00\ncontent-type: text/plain\n\noops\n");
    assert_eq!(out.errors, vec![RenderError::HeaderDecodeError { index: 0 }]);
}

#[test]
fn errors_of_the_headers_come_before_that_of_the_body() {
    let res = RawResponse {
        version: HttpVersion::Http11,
        status: 200,
        headers: vec![
            header("content-type", "application/json"),
            Header { name: "x-raw".to_string(), value: vec![0xfe] },
        ],
        body: "[1,".to_string(),
    };
    let out = print_res(&res);
    assert_eq!(text_of(&out.spans), "HTTP/1.1 200 OK\n\ncontent-type: application/json\nx-raw: \\xfe\n\n[1,\n");
    assert_eq!(
        out.errors,
        vec![RenderError::HeaderDecodeError { index: 1 }, RenderError::MalformedResponseBody]
    );
}
