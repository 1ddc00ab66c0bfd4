use super::headers::{
    all_visible, content_type, content_type_of, content_type_value, header_value_text,
    is_printable, names_content_type, value_text,
};
use super::json::{is_json_text, json_text};
use super::response::{headers_view, HttpVersion, MediaType, RawResponse, ResponseView};
use super::status::{reason_phrase, status_line, status_line_of};
use crate::text::same_text;
use vstd::prelude::*;
use vstd::string::StringExecFns;

verus! {

/// The colour in which a piece of output is shown.
#[derive(Clone, Copy, Debug, PartialEq, Eq, Structural)]
pub enum Style {
    Plain,
    Blue,
    Green,
    Yellow,
}

/// A piece of output: a text and the colour to show it in.
#[derive(Clone, Debug)]
pub struct Span {
    pub style: Style,
    pub text: String,
}

impl View for Span {
    type V = (Style, Seq<char>);

    open spec fn view(&self) -> (Style, Seq<char>) {
        (self.style, self.text@)
    }
}

/// The styles and texts of a list of spans.
pub open spec fn spans_view(spans: Seq<Span>) -> Seq<(Style, Seq<char>)> {
    spans.map_values(|s: Span| s@)
}

/// What went wrong while a response was rendered. None of these stops the rendering: the
/// output holds a fallback in each case.
#[derive(Clone, Copy, Debug, PartialEq, Eq, Structural)]
pub enum RenderError {
    /// The value of the header at `index` is no visible text; it is shown escaped.
    HeaderDecodeError { index: usize },
    /// The response declares JSON, and its body is no JSON text; it is shown as received.
    MalformedResponseBody,
}

/// The output for a response, or for a part of one: the spans to print, in order, and the
/// errors to report beside them.
#[derive(Clone, Debug)]
pub struct Rendering {
    pub spans: Vec<Span>,
    pub errors: Vec<RenderError>,
}

/// What a `Rendering` holds.
pub struct RenderingView {
    pub spans: Seq<(Style, Seq<char>)>,
    pub errors: Seq<RenderError>,
}

impl View for Rendering {
    type V = RenderingView;

    open spec fn view(&self) -> RenderingView {
        RenderingView { spans: spans_view(self.spans@), errors: self.errors@ }
    }
}

/// The text of a list of spans when it is printed without colours.
pub open spec fn plain_text(spans: Seq<(Style, Seq<char>)>) -> Seq<char>
    decreases spans.len(),
{
    if spans.len() == 0 {
        Seq::empty()
    } else {
        plain_text(spans.drop_last()) + spans.last().1
    }
}

/// The status block: the status line in blue, then the end of that line and an empty line.
pub open spec fn status_block(version: HttpVersion, code: u16, reason: Option<Seq<char>>) -> Seq<
    (Style, Seq<char>),
> {
    seq![(Style::Blue, status_line_of(version, code, reason)), (Style::Plain, "\n\n"@)]
}

/// The lines of the headers: for each header, in the order given, its name in green and
/// then, uncoloured, `: `, the text of its value and the end of the line.
pub open spec fn header_lines(headers: Seq<(Seq<char>, Seq<u8>)>) -> Seq<(Style, Seq<char>)> {
    Seq::new(
        2 * headers.len(),
        |j: int|
            if j % 2 == 0 {
                (Style::Green, headers[j / 2].0)
            } else {
                (Style::Plain, ": "@ + value_text(headers[j / 2].1) + "\n"@)
            },
    )
}

/// The header block: the lines of the headers, then an empty line.
pub open spec fn headers_block(headers: Seq<(Seq<char>, Seq<u8>)>) -> Seq<(Style, Seq<char>)> {
    header_lines(headers).push((Style::Plain, "\n"@))
}

/// The errors of the headers: one for each header whose value is no visible text, in the
/// order of the headers.
pub open spec fn decode_errors(headers: Seq<(Seq<char>, Seq<u8>)>) -> Seq<RenderError>
    decreases headers.len(),
{
    if headers.len() == 0 {
        Seq::empty()
    } else if all_visible(headers.last().1) {
        decode_errors(headers.drop_last())
    } else {
        decode_errors(headers.drop_last()).push(
            RenderError::HeaderDecodeError { index: (headers.len() - 1) as usize },
        )
    }
}

/// Whether a content type is JSON: its essence is `application/json`.
pub open spec fn is_json(content_type: Option<Seq<char>>) -> bool {
    content_type == Some("application/json"@)
}

/// A body shown as received: the text, uncoloured, and the end of the line.
pub open spec fn raw_body(body: Seq<char>) -> Seq<(Style, Seq<char>)> {
    seq![(Style::Plain, body), (Style::Plain, "\n"@)]
}

/// A body that declares JSON and is none: the body as received, and the error that says
/// so.
pub open spec fn malformed_body(body: Seq<char>) -> RenderingView {
    RenderingView { spans: raw_body(body), errors: seq![RenderError::MalformedResponseBody] }
}

/// A JSON body, given what the formatter made of it: the formatted text in yellow. A body
/// that the formatter turns down is treated as one that is no JSON.
pub open spec fn formatted_body(body: Seq<char>, formatted: Result<Seq<char>, Seq<char>>) -> RenderingView {
    match formatted {
        Ok(pretty) => RenderingView {
            spans: seq![(Style::Yellow, pretty), (Style::Plain, "\n"@)],
            errors: Seq::empty(),
        },
        Err(_) => malformed_body(body),
    }
}

/// What `jsonxf::pretty_print` returns for `body`: the body laid out over several lines
/// with two spaces of indentation, or the formatter's error message.
pub uninterp spec fn jsonxf_pretty(body: Seq<char>) -> Result<Seq<char>, Seq<char>>;

/// Calls `jsonxf::pretty_print` on `body`. The formatter reads nothing but the text, so
/// what comes back is what `jsonxf_pretty` names.
#[verifier::external_body]
fn pretty_print(body: &str) -> (formatted: Result<String, String>)
    ensures
        match formatted {
            Ok(pretty) => jsonxf_pretty(body@) == Ok::<Seq<char>, Seq<char>>(pretty@),
            Err(message) => jsonxf_pretty(body@) == Err::<Seq<char>, Seq<char>>(message@),
        },
{
    jsonxf::pretty_print(body)
}

/// The body block. A body whose content type is not JSON is shown as received. A body
/// whose content type is JSON goes through the formatter where it is a JSON text; where it
/// is none, it is shown as received, with an error.
pub open spec fn body_block(content_type: Option<Seq<char>>, body: Seq<char>) -> RenderingView {
    if !is_json(content_type) {
        RenderingView { spans: raw_body(body), errors: Seq::empty() }
    } else if json_text(body) {
        formatted_body(body, jsonxf_pretty(body))
    } else {
        malformed_body(body)
    }
}

/// The whole output for a response: status block, header block and body block, in this
/// order, with the errors of the headers before that of the body.
pub open spec fn response_rendering(res: ResponseView) -> RenderingView {
    let body = body_block(content_type_of(res.headers), res.body);
    RenderingView {
        spans: status_block(res.version, res.status, reason_phrase(res.status)) + headers_block(
            res.headers,
        ) + body.spans,
        errors: decode_errors(res.headers) + body.errors,
    }
}

/// The status block of a response, ready to print: protocol version, status code and
/// reason phrase in blue, and an empty line after them.
pub fn print_status(res: &RawResponse) -> (spans: Vec<Span>)
    ensures
        spans_view(spans@) == status_block(res.version, res.status, reason_phrase(res.status)),
{
    let mut spans: Vec<Span> = Vec::new();
    spans.push(Span { style: Style::Blue, text: status_line(res.version, res.status) });
    spans.push(Span { style: Style::Plain, text: String::from_str("\n\n") });
    proof {
        assert(spans_view(spans@) =~= status_block(
            res.version,
            res.status,
            reason_phrase(res.status),
        ));
    }
    spans
}

/// The header block of a response, ready to print: one line for each header, in the
/// order in which the headers were received, and an empty line after them. A value that is
/// no visible text is shown escaped and reported.
pub fn print_headers(res: &RawResponse) -> (out: Rendering)
    ensures
        out@.spans == headers_block(res@.headers),
        out@.errors == decode_errors(res@.headers),
{
    let headers = &res.headers;
    let mut spans: Vec<Span> = Vec::new();
    let mut errors: Vec<RenderError> = Vec::new();
    let n = headers.len();
    let mut i: usize = 0;
    while i < n
        invariant
            n == headers.len(),
            i <= n,
            spans_view(spans@) == header_lines(headers_view(headers@).take(i as int)),
            errors@ == decode_errors(headers_view(headers@).take(i as int)),
        decreases n - i,
    {
        let header = &headers[i];
        let ghost before = spans_view(spans@);
        let mut line = String::from_str(": ");
        line.append(header_value_text(&header.value).as_str());
        line.append("\n");
        spans.push(Span { style: Style::Green, text: header.name.clone() });
        spans.push(Span { style: Style::Plain, text: line });
        if !is_printable(&header.value) {
            errors.push(RenderError::HeaderDecodeError { index: i });
        }
        proof {
            let all = headers_view(headers@);
            assert(all.take(i + 1).drop_last() =~= all.take(i as int));
            assert(all.take(i + 1).last() == header@);
            let lines = header_lines(all.take(i + 1));
            assert(spans_view(spans@) =~= before.push((Style::Green, header@.0)).push(
                (Style::Plain, ": "@ + value_text(header@.1) + "\n"@),
            ));
            assert forall|j: int| 0 <= j < lines.len() implies spans_view(spans@)[j]
                == lines[j] by {
                if j < 2 * i {
                    assert(j / 2 < i);
                    assert(before[j] == header_lines(all.take(i as int))[j]);
                    assert(all.take(i as int)[j / 2] == all.take(i + 1)[j / 2]);
                } else {
                    assert(j / 2 == i);
                }
            }
            assert(spans_view(spans@) =~= lines);
        }
        i = i + 1;
    }
    spans.push(Span { style: Style::Plain, text: String::from_str("\n") });
    proof {
        let all = headers_view(headers@);
        assert(all.take(n as int) =~= all);
        assert(spans_view(spans@) =~= headers_block(all));
    }
    Rendering { spans, errors }
}

/// A body shown as received.
pub fn body_as_received(body: &str) -> (spans: Vec<Span>)
    ensures
        spans_view(spans@) == raw_body(body@),
{
    let mut spans: Vec<Span> = Vec::new();
    spans.push(Span { style: Style::Plain, text: String::from_str(body) });
    spans.push(Span { style: Style::Plain, text: String::from_str("\n") });
    proof {
        assert(spans_view(spans@) =~= raw_body(body@));
    }
    spans
}

/// A body that declares JSON and is none: shown as received, and reported.
pub fn body_malformed(body: &str) -> (out: Rendering)
    ensures
        out@ == malformed_body(body@),
{
    let mut errors: Vec<RenderError> = Vec::new();
    errors.push(RenderError::MalformedResponseBody);
    proof {
        assert(errors@ =~= seq![RenderError::MalformedResponseBody]);
    }
    Rendering { spans: body_as_received(body), errors }
}

/// A JSON body, given what the formatter returned for it: the formatted text in yellow.
/// Should the formatter turn the body down, it is shown as a body that is no JSON.
pub fn body_formatted(body: &str, formatted: Result<String, String>) -> (out: Rendering)
    ensures
        out@ == formatted_body(
            body@,
            match formatted {
                Ok(pretty) => Ok(pretty@),
                Err(message) => Err(message@),
            },
        ),
{
    match formatted {
        Ok(pretty) => {
            let mut spans: Vec<Span> = Vec::new();
            spans.push(Span { style: Style::Yellow, text: pretty });
            spans.push(Span { style: Style::Plain, text: String::from_str("\n") });
            proof {
                assert(spans_view(spans@) =~= seq![
                    (Style::Yellow, pretty@),
                    (Style::Plain, "\n"@),
                ]);
            }
            Rendering { spans, errors: Vec::new() }
        },
        Err(_) => body_malformed(body),
    }
}

/// The essence of a content type, if there is one: what the contracts below speak of.
pub open spec fn essence_of(content_type: Option<MediaType>) -> Option<Seq<char>> {
    match content_type {
        Some(media_type) => Some(media_type@),
        None => None,
    }
}

/// Whether a content type is JSON.
pub fn declares_json(content_type: &Option<MediaType>) -> (json: bool)
    ensures
        json == is_json(essence_of(*content_type)),
{
    match content_type {
        Some(media_type) => same_text(media_type.essence.as_str(), "application/json"),
        None => false,
    }
}

/// Reads the content type of a response from its headers. A missing `Content-Type`
/// header, a value that is no visible text and a value that is no media type all give
/// `None`.
pub fn get_content_type(res: &RawResponse) -> (content_type: Option<MediaType>)
    ensures
        essence_of(content_type) == content_type_of(res@.headers),
{
    content_type(&res.headers)
}

/// The body block of a response with the given content type, ready to print: a JSON body
/// pretty-printed in yellow, any other body as received. A body that declares JSON and is
/// no JSON text is checked before it reaches the formatter: it is shown as received and
/// reported.
pub fn print_body(mime: Option<MediaType>, body: &String) -> (out: Rendering)
    ensures
        out@ == body_block(essence_of(mime), body@),
{
    if !declares_json(&mime) {
        Rendering { spans: body_as_received(body.as_str()), errors: Vec::new() }
    } else if is_json_text(body.as_str()) {
        body_formatted(body.as_str(), pretty_print(body.as_str()))
    } else {
        body_malformed(body.as_str())
    }
}

/// The whole output for a response, ready to print: status block, header block and body
/// block, with the errors found on the way.
pub fn print_res(res: &RawResponse) -> (out: Rendering)
    ensures
        out@ == response_rendering(res@),
{
    let mut spans = print_status(res);
    let mut headers = print_headers(res);
    let mime = get_content_type(res);
    let mut body = print_body(mime, &res.body);
    let mut errors: Vec<RenderError> = Vec::new();
    let ghost status_spans = spans@;
    let ghost header_spans = headers.spans@;
    let ghost body_spans = body.spans@;
    spans.append(&mut headers.spans);
    spans.append(&mut body.spans);
    errors.append(&mut headers.errors);
    errors.append(&mut body.errors);
    proof {
        assert(spans@ =~= status_spans + header_spans + body_spans);
        assert(spans_view(spans@) =~= spans_view(status_spans) + spans_view(header_spans)
            + spans_view(body_spans));
    }
    Rendering { spans, errors }
}

/// The text of a list of spans when it is printed without colours.
pub fn text_of(spans: &Vec<Span>) -> (text: String)
    ensures
        text@ == plain_text(spans_view(spans@)),
{
    let mut text = String::new();
    let n = spans.len();
    let mut i: usize = 0;
    while i < n
        invariant
            n == spans.len(),
            i <= n,
            text@ == plain_text(spans_view(spans@).take(i as int)),
        decreases n - i,
    {
        text.append(spans[i].text.as_str());
        proof {
            let all = spans_view(spans@);
            assert(all.take(i + 1).drop_last() =~= all.take(i as int));
        }
        i = i + 1;
    }
    proof {
        assert(spans_view(spans@).take(n as int) =~= spans_view(spans@));
    }
    text
}

/// The header lines of a response as plain text: for each header, in the order given, its
/// name, `: `, the text of its value and the end of the line.
pub open spec fn headers_text(headers: Seq<(Seq<char>, Seq<u8>)>) -> Seq<char>
    decreases headers.len(),
{
    if headers.len() == 0 {
        Seq::empty()
    } else {
        headers_text(headers.drop_last()) + headers.last().0 + ": "@ + value_text(
            headers.last().1,
        ) + "\n"@
    }
}

/// The text of the body as it is shown: what the formatter made of it where the content
/// type is JSON and the body is a JSON text that the formatter took, the body as received
/// otherwise.
pub open spec fn shown_body(content_type: Option<Seq<char>>, body: Seq<char>) -> Seq<char> {
    if is_json(content_type) && json_text(body) && jsonxf_pretty(body) is Ok {
        jsonxf_pretty(body)->Ok_0
    } else {
        body
    }
}

/// Header lines keep the order of the headers: header `i` fills the spans `2 * i` and
/// `2 * i + 1` of the lines, the first with its name and the second with its value.
pub proof fn law_headers_keep_their_order(headers: Seq<(Seq<char>, Seq<u8>)>, i: int)
    requires
        0 <= i < headers.len(),
    ensures
        header_lines(headers).len() == 2 * headers.len(),
        header_lines(headers)[2 * i] == (Style::Green, headers[i].0),
        header_lines(headers)[2 * i + 1] == (
            Style::Plain,
            ": "@ + value_text(headers[i].1) + "\n"@,
        ),
{
    assert((2 * i) / 2 == i && (2 * i) % 2 == 0);
    assert((2 * i + 1) / 2 == i && (2 * i + 1) % 2 == 1);
}

/// In the output for a response, the headers stand in the order received, after the two
/// spans of the status block.
pub proof fn law_response_keeps_header_order(res: ResponseView, i: int)
    requires
        0 <= i < res.headers.len(),
    ensures
        response_rendering(res).spans[2 + 2 * i] == (Style::Green, res.headers[i].0),
        response_rendering(res).spans[2 + 2 * i + 1] == (
            Style::Plain,
            ": "@ + value_text(res.headers[i].1) + "\n"@,
        ),
{
    law_headers_keep_their_order(res.headers, i);
}

/// A header is reported exactly when its value is no visible text.
pub proof fn law_errors_name_undecodable_headers(headers: Seq<(Seq<char>, Seq<u8>)>, i: int)
    requires
        headers.len() <= usize::MAX,
        0 <= i < headers.len(),
    ensures
        decode_errors(headers).contains(RenderError::HeaderDecodeError { index: i as usize })
            <==> !all_visible(headers[i].1),
    decreases headers.len(),
{
    let wanted = RenderError::HeaderDecodeError { index: i as usize };
    let front = headers.drop_last();
    let last = headers.len() - 1;
    if i < last {
        law_errors_name_undecodable_headers(front, i);
        assert(front[i] == headers[i]);
        if !all_visible(headers.last().1) {
            let added = RenderError::HeaderDecodeError { index: last as usize };
            assert(decode_errors(headers) == decode_errors(front).push(added));
            if decode_errors(front).contains(wanted) {
                let at = choose|at: int|
                    0 <= at < decode_errors(front).len() && decode_errors(front)[at] == wanted;
                assert(decode_errors(headers)[at] == wanted);
            }
            if decode_errors(headers).contains(wanted) {
                let at = choose|at: int|
                    0 <= at < decode_errors(headers).len() && decode_errors(headers)[at]
                        == wanted;
                if at < decode_errors(front).len() {
                    assert(decode_errors(front)[at] == wanted);
                }
            }
        }
    } else {
        if !all_visible(headers.last().1) {
            assert(decode_errors(headers).last() == wanted);
        } else if decode_errors(front).contains(wanted) {
            lemma_errors_stay_in_range(front, wanted);
        }
    }
}

/// Every error of the headers names a header of the list.
proof fn lemma_errors_stay_in_range(headers: Seq<(Seq<char>, Seq<u8>)>, error: RenderError)
    requires
        headers.len() <= usize::MAX,
        decode_errors(headers).contains(error),
    ensures
        error matches RenderError::HeaderDecodeError { index } && index < headers.len(),
    decreases headers.len(),
{
    if headers.len() > 0 {
        let front = headers.drop_last();
        if all_visible(headers.last().1) {
            lemma_errors_stay_in_range(front, error);
        } else {
            let at = choose|at: int|
                0 <= at < decode_errors(headers).len() && decode_errors(headers)[at] == error;
            if at < decode_errors(front).len() {
                assert(decode_errors(front)[at] == error);
                lemma_errors_stay_in_range(front, error);
            }
        }
    }
}

/// The plain text of two lists of spans, one after the other, is the text of the first
/// followed by the text of the second.
pub proof fn lemma_plain_text_of_concat(a: Seq<(Style, Seq<char>)>, b: Seq<(Style, Seq<char>)>)
    ensures
        plain_text(a + b) == plain_text(a) + plain_text(b),
    decreases b.len(),
{
    if b.len() == 0 {
        assert(a + b =~= a);
        assert(plain_text(a) + plain_text(b) =~= plain_text(a));
    } else {
        lemma_plain_text_of_concat(a, b.drop_last());
        assert((a + b).drop_last() =~= a + b.drop_last());
        assert(plain_text(a + b) =~= plain_text(a) + plain_text(b));
    }
}

/// The plain text of two spans is the text of the first followed by that of the second.
proof fn lemma_plain_text_of_pair(a: (Style, Seq<char>), b: (Style, Seq<char>))
    ensures
        plain_text(seq![a, b]) == a.1 + b.1,
{
    let both = seq![a, b];
    assert(both.drop_last() =~= seq![a]);
    assert(seq![a].drop_last() =~= Seq::<(Style, Seq<char>)>::empty());
    assert(plain_text(Seq::<(Style, Seq<char>)>::empty()) =~= Seq::<char>::empty());
    assert(plain_text(seq![a]) =~= a.1);
    assert(plain_text(both) =~= a.1 + b.1);
}

/// The plain text of the header lines is the text of the headers.
pub proof fn lemma_plain_text_of_header_lines(headers: Seq<(Seq<char>, Seq<u8>)>)
    ensures
        plain_text(header_lines(headers)) == headers_text(headers),
    decreases headers.len(),
{
    if headers.len() > 0 {
        let front = headers.drop_last();
        let last = headers.len() - 1;
        lemma_plain_text_of_header_lines(front);
        law_headers_keep_their_order(headers, last);
        let lines = header_lines(headers);
        assert(lines.drop_last().drop_last() =~= header_lines(front)) by {
            assert forall|j: int| 0 <= j < 2 * front.len() implies lines[j] == header_lines(
                front,
            )[j] by {
                assert(j / 2 < last);
                assert(front[j / 2] == headers[j / 2]);
            }
        }
        assert(lines.last() == lines[2 * last + 1]);
        assert(lines.drop_last().last() == lines[2 * last]);
        assert(plain_text(lines.drop_last()) == plain_text(header_lines(front)) + headers[last].0);
        assert(plain_text(lines) =~= headers_text(headers));
    } else {
        assert(header_lines(headers) =~= Seq::<(Style, Seq<char>)>::empty());
    }
}

/// What a response looks like on a screen without colours: the status line and an empty
/// line, one line for each header in the order received and an empty line, then the body
/// as it is shown and the end of its line. Nothing else is printed.
pub proof fn law_plain_text_of_response(res: ResponseView)
    ensures
        plain_text(response_rendering(res).spans) == status_line_of(
            res.version,
            res.status,
            reason_phrase(res.status),
        ) + "\n\n"@ + headers_text(res.headers) + "\n"@ + shown_body(
            content_type_of(res.headers),
            res.body,
        ) + "\n"@,
{
    let status = status_block(res.version, res.status, reason_phrase(res.status));
    let headers = headers_block(res.headers);
    let body = body_block(content_type_of(res.headers), res.body).spans;
    lemma_plain_text_of_concat(status, headers);
    lemma_plain_text_of_concat(status + headers, body);
    lemma_plain_text_of_header_lines(res.headers);
    assert(headers.drop_last() =~= header_lines(res.headers));
    assert(status =~= seq![status[0], status[1]]);
    lemma_plain_text_of_pair(status[0], status[1]);
    assert(body =~= seq![body[0], body[1]]);
    lemma_plain_text_of_pair(body[0], body[1]);
    assert(plain_text(headers) == headers_text(res.headers) + "\n"@);
    assert(plain_text(response_rendering(res).spans) =~= status_line_of(
        res.version,
        res.status,
        reason_phrase(res.status),
    ) + "\n\n"@ + headers_text(res.headers) + "\n"@ + shown_body(
        content_type_of(res.headers),
        res.body,
    ) + "\n"@);
}

/// A list of headers none of which is named `Content-Type` declares no content type.
pub proof fn law_no_header_no_content_type(headers: Seq<(Seq<char>, Seq<u8>)>)
    requires
        forall|i: int| 0 <= i < headers.len() ==> !names_content_type((#[trigger] headers[i]).0),
    ensures
        content_type_value(headers) is None,
        content_type_of(headers) is None,
    decreases headers.len(),
{
    if headers.len() > 0 {
        let rest = headers.drop_first();
        assert(!names_content_type(headers[0].0));
        assert forall|i: int| 0 <= i < rest.len() implies !names_content_type(
            (#[trigger] rest[i]).0,
        ) by {
            assert(rest[i] == headers[i + 1]);
        }
        law_no_header_no_content_type(rest);
    }
}

/// A body that declares JSON and is no JSON text is shown as received, its text unchanged
/// and uncoloured, and reported: the error stands last, after those of the headers.
pub proof fn law_malformed_json_is_shown_as_received(res: ResponseView)
    requires
        is_json(content_type_of(res.headers)),
        !json_text(res.body),
    ensures
        response_rendering(res).spans == status_block(
            res.version,
            res.status,
            reason_phrase(res.status),
        ) + headers_block(res.headers) + seq![(Style::Plain, res.body), (Style::Plain, "\n"@)],
        response_rendering(res).errors == decode_errors(res.headers).push(
            RenderError::MalformedResponseBody,
        ),
        shown_body(content_type_of(res.headers), res.body) == res.body,
{
    assert(decode_errors(res.headers) + seq![RenderError::MalformedResponseBody]
        =~= decode_errors(res.headers).push(RenderError::MalformedResponseBody));
}

/// A JSON body is reported only where it is no JSON text or the formatter turns it down;
/// a body of another content type is never reported.
pub proof fn law_body_errors(content_type: Option<Seq<char>>, body: Seq<char>)
    ensures
        body_block(content_type, body).errors == if is_json(content_type) && !(json_text(body)
            && jsonxf_pretty(body) is Ok) {
            seq![RenderError::MalformedResponseBody]
        } else {
            Seq::<RenderError>::empty()
        },
        body_block(content_type, body).spans == if is_json(content_type) && json_text(body)
            && jsonxf_pretty(body) is Ok {
            seq![(Style::Yellow, jsonxf_pretty(body)->Ok_0), (Style::Plain, "\n"@)]
        } else {
            raw_body(body)
        },
{
}

/// A body whose response does not declare JSON is shown as received: its text, unchanged
/// and uncoloured, and the end of the line, with no error.
pub proof fn law_other_bodies_are_shown_as_received(res: ResponseView)
    requires
        !is_json(content_type_of(res.headers)),
    ensures
        response_rendering(res).spans == status_block(
            res.version,
            res.status,
            reason_phrase(res.status),
        ) + headers_block(res.headers) + seq![(Style::Plain, res.body), (Style::Plain, "\n"@)],
        response_rendering(res).errors == decode_errors(res.headers),
        shown_body(content_type_of(res.headers), res.body) == res.body,
{
    assert(decode_errors(res.headers) + Seq::<RenderError>::empty() =~= decode_errors(
        res.headers,
    ));
}

} // verus!
