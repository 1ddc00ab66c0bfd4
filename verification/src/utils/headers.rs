use super::response::{headers_view, Header, MediaType};
use crate::text::{digit, digit_char, lowered, same_text_ignoring_case};
use vstd::prelude::*;

verus! {

/// Whether `b` is a byte that a header value shows as it is: a printable character of
/// ASCII, a space or a tab.
pub open spec fn is_visible(b: u8) -> bool {
    32 <= b < 127 || b == 9
}

/// Whether every byte of `value` is visible.
pub open spec fn all_visible(value: Seq<u8>) -> bool {
    forall|i: int| 0 <= i < value.len() ==> is_visible(#[trigger] value[i])
}

/// The bytes of `value` read as characters, one for one.
pub open spec fn ascii_text(value: Seq<u8>) -> Seq<char> {
    value.map_values(|b: u8| b as char)
}

/// How one byte of a header value is shown: a visible byte as its character, any other as
/// `\x` and its two hexadecimal digits.
pub open spec fn byte_text(b: u8) -> Seq<char> {
    if is_visible(b) {
        seq![b as char]
    } else {
        seq!['\\', 'x', digit(b as int / 16), digit(b as int % 16)]
    }
}

/// How a header value is shown: its bytes, each as `byte_text` shows it, in order.
pub open spec fn value_text(value: Seq<u8>) -> Seq<char>
    decreases value.len(),
{
    if value.len() == 0 {
        Seq::empty()
    } else {
        value_text(value.drop_last()) + byte_text(value.last())
    }
}

/// A value of visible bytes only is shown as it was received.
pub proof fn law_visible_value_is_unchanged(value: Seq<u8>)
    requires
        all_visible(value),
    ensures
        value_text(value) == ascii_text(value),
    decreases value.len(),
{
    if value.len() > 0 {
        let front = value.drop_last();
        assert forall|i: int| 0 <= i < front.len() implies is_visible(#[trigger] front[i]) by {
            assert(front[i] == value[i]);
        }
        law_visible_value_is_unchanged(front);
        assert(is_visible(value[value.len() - 1]));
        assert(value_text(value) =~= ascii_text(value));
    } else {
        assert(value_text(value) =~= ascii_text(value));
    }
}

/// Whether `b` is visible.
pub fn visible(b: u8) -> (v: bool)
    ensures
        v == is_visible(b),
{
    (32 <= b && b < 127) || b == 9
}

/// Whether every byte of a header value is visible.
pub fn is_printable(value: &Vec<u8>) -> (printable: bool)
    ensures
        printable == all_visible(value@),
{
    let n = value.len();
    let mut i: usize = 0;
    while i < n
        invariant
            n == value.len(),
            i <= n,
            forall|j: int| 0 <= j < i ==> is_visible(#[trigger] value@[j]),
        decreases n - i,
    {
        if !visible(value[i]) {
            return false;
        }
        i = i + 1;
    }
    true
}

/// The text that stands for a header value on the screen. Bytes that are no visible text
/// are escaped, so every value can be shown.
pub fn header_value_text(value: &Vec<u8>) -> (text: String)
    ensures
        text@ == value_text(value@),
{
    let mut text = String::new();
    let n = value.len();
    let mut i: usize = 0;
    while i < n
        invariant
            n == value.len(),
            i <= n,
            text@ == value_text(value@.take(i as int)),
        decreases n - i,
    {
        let b = value[i];
        let ghost before = text@;
        if visible(b) {
            text.push(b as char);
        } else {
            text.push('\\');
            text.push('x');
            text.push(digit_char(b / 16));
            text.push(digit_char(b % 16));
        }
        proof {
            assert(value@.take(i + 1).drop_last() =~= value@.take(i as int));
            assert(text@ =~= before + byte_text(b));
        }
        i = i + 1;
    }
    proof {
        assert(value@.take(n as int) =~= value@);
    }
    text
}

/// A header value as text, where it is visible text; a value with any other byte in it
/// has no text.
pub fn visible_text(value: &Vec<u8>) -> (text: Option<String>)
    ensures
        match text {
            Some(t) => all_visible(value@) && t@ == ascii_text(value@),
            None => !all_visible(value@),
        },
{
    let mut text = String::new();
    let n = value.len();
    let mut i: usize = 0;
    while i < n
        invariant
            n == value.len(),
            i <= n,
            forall|j: int| 0 <= j < i ==> is_visible(#[trigger] value@[j]),
            text@ == ascii_text(value@.take(i as int)),
        decreases n - i,
    {
        let b = value[i];
        if !visible(b) {
            return None;
        }
        text.push(b as char);
        proof {
            assert(text@ =~= ascii_text(value@.take(i + 1)));
        }
        i = i + 1;
    }
    proof {
        assert(value@.take(n as int) =~= value@);
    }
    Some(text)
}

/// Whether `name` is the header name `Content-Type`, in whatever case it is written.
pub open spec fn names_content_type(name: Seq<char>) -> bool {
    lowered(name) == "content-type"@
}

/// The value of the first header named `Content-Type`, if there is one.
pub open spec fn content_type_value(headers: Seq<(Seq<char>, Seq<u8>)>) -> Option<Seq<u8>>
    decreases headers.len(),
{
    if headers.len() == 0 {
        None
    } else if names_content_type(headers[0].0) {
        Some(headers[0].1)
    } else {
        content_type_value(headers.drop_first())
    }
}

/// The essence of the media type that `mime::Mime`'s `from_str` reads from `text`, as
/// `Mime::essence_str` gives it; `None` where `from_str` turns the text down.
pub uninterp spec fn mime_essence_of(text: Seq<char>) -> Option<Seq<char>>;

/// Parses `text` with `mime::Mime`'s `from_str` and takes the `essence_str` of what it
/// returns. The parser reads nothing but the text, so the essence is the one that
/// `mime_essence_of` names; a text that the parser turns down has none.
#[verifier::external_body]
fn mime_essence(text: &str) -> (essence: Option<String>)
    ensures
        essence.is_some() == mime_essence_of(text@).is_some(),
        essence matches Some(e) ==> mime_essence_of(text@) == Some(e@),
{
    match text.parse::<mime::Mime>() {
        Ok(media_type) => Some(media_type.essence_str().to_string()),
        Err(_) => None,
    }
}

/// The content type that a list of headers declares: the essence of the media type in the
/// first `Content-Type` header. There is none where no header has that name, or where the
/// value is no visible text or no media type.
pub open spec fn content_type_of(headers: Seq<(Seq<char>, Seq<u8>)>) -> Option<Seq<char>> {
    match content_type_value(headers) {
        Some(value) => if all_visible(value) {
            mime_essence_of(ascii_text(value))
        } else {
            None
        },
        None => None,
    }
}

/// Whether `name` is the header name `Content-Type`, in whatever case it is written.
pub fn is_content_type_name(name: &str) -> (is: bool)
    ensures
        is == names_content_type(name@),
{
    proof {
        reveal_strlit("content-type");
        assert(lowered("content-type"@) =~= "content-type"@);
    }
    same_text_ignoring_case(name, "content-type")
}

/// The value of the first header named `Content-Type`, if there is one.
pub fn find_content_type(headers: &Vec<Header>) -> (value: Option<&Vec<u8>>)
    ensures
        match value {
            Some(v) => content_type_value(headers_view(headers@)) == Some(v@),
            None => content_type_value(headers_view(headers@)) is None,
        },
{
    let n = headers.len();
    let mut i: usize = 0;
    proof {
        assert(headers_view(headers@).skip(0) =~= headers_view(headers@));
    }
    while i < n
        invariant
            n == headers.len(),
            i <= n,
            content_type_value(headers_view(headers@)) == content_type_value(
                headers_view(headers@).skip(i as int),
            ),
        decreases n - i,
    {
        let ghost rest = headers_view(headers@).skip(i as int);
        proof {
            assert(rest[0] == headers@[i as int]@);
            assert(rest.drop_first() =~= headers_view(headers@).skip(i + 1));
        }
        if is_content_type_name(headers[i].name.as_str()) {
            return Some(&headers[i].value);
        }
        i = i + 1;
    }
    None
}

/// Reads the content type that a list of headers declares. A missing header, a value that
/// is no visible text and a value that is no media type all give `None`.
pub fn content_type(headers: &Vec<Header>) -> (content_type: Option<MediaType>)
    ensures
        match content_type {
            Some(media_type) => content_type_of(headers_view(headers@)) == Some(media_type@),
            None => content_type_of(headers_view(headers@)) is None,
        },
{
    match find_content_type(headers) {
        Some(value) => match visible_text(value) {
            Some(text) => match mime_essence(text.as_str()) {
                Some(essence) => Some(MediaType { essence }),
                None => None,
            },
            None => None,
        },
        None => None,
    }
}

} // verus!
