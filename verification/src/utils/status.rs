use super::response::HttpVersion;
use crate::text::{decimal, push_decimal};
use vstd::prelude::*;
use vstd::string::StringExecFns;

verus! {

/// The reason phrase that `reqwest::StatusCode::canonical_reason` has for the status code
/// `code`; `None` where it has none, or where `code` is no status code at all.
pub uninterp spec fn reason_phrase(code: u16) -> Option<Seq<char>>;

/// Makes a `reqwest::StatusCode` of `code` with `from_u16` and asks its `canonical_reason`.
/// Both read nothing but the number, so the phrase is the one that `reason_phrase` names;
/// a number that `from_u16` turns down has no phrase.
#[verifier::external_body]
fn canonical_reason(code: u16) -> (reason: Option<String>)
    ensures
        reason.is_some() == reason_phrase(code).is_some(),
        reason matches Some(phrase) ==> reason_phrase(code) == Some(phrase@),
{
    match reqwest::StatusCode::from_u16(code) {
        Ok(status) => match status.canonical_reason() {
            Some(phrase) => Some(phrase.to_string()),
            None => None,
        },
        Err(_) => None,
    }
}

/// How a protocol version is written.
pub open spec fn version_name(version: HttpVersion) -> Seq<char> {
    match version {
        HttpVersion::Http09 => "HTTP/0.9"@,
        HttpVersion::Http10 => "HTTP/1.0"@,
        HttpVersion::Http11 => "HTTP/1.1"@,
        HttpVersion::H2 => "HTTP/2.0"@,
        HttpVersion::H3 => "HTTP/3.0"@,
    }
}

/// The status line: version, status code in decimal and reason phrase, with one space
/// between them. A code without a phrase is followed by `<unknown status code>`.
pub open spec fn status_line_of(version: HttpVersion, code: u16, reason: Option<Seq<char>>) -> Seq<
    char,
> {
    version_name(version) + " "@ + decimal(code as nat) + " "@ + match reason {
        Some(phrase) => phrase,
        None => "<unknown status code>"@,
    }
}

/// How `version` is written.
pub fn version_text(version: HttpVersion) -> (text: &'static str)
    ensures
        text@ == version_name(version),
{
    match version {
        HttpVersion::Http09 => "HTTP/0.9",
        HttpVersion::Http10 => "HTTP/1.0",
        HttpVersion::Http11 => "HTTP/1.1",
        HttpVersion::H2 => "HTTP/2.0",
        HttpVersion::H3 => "HTTP/3.0",
    }
}

/// Writes the status line for a version, a status code and the code's reason phrase.
pub fn status_line_with(version: HttpVersion, code: u16, reason: Option<&str>) -> (line: String)
    ensures
        line@ == status_line_of(
            version,
            code,
            match reason {
                Some(phrase) => Some(phrase@),
                None => None,
            },
        ),
{
    let mut line = String::from_str(version_text(version));
    line.append(" ");
    push_decimal(&mut line, code);
    line.append(" ");
    match reason {
        Some(phrase) => line.append(phrase),
        None => line.append("<unknown status code>"),
    }
    line
}

/// Writes the status line of a response: its version, its status code and the canonical
/// reason phrase of that code.
pub fn status_line(version: HttpVersion, code: u16) -> (line: String)
    ensures
        line@ == status_line_of(version, code, reason_phrase(code)),
{
    match canonical_reason(code) {
        Some(phrase) => status_line_with(version, code, Some(phrase.as_str())),
        None => status_line_with(version, code, None),
    }
}

} // verus!
