use vstd::prelude::*;

verus! {

/// The protocol version that a response came with.
#[derive(Clone, Copy, Debug, PartialEq, Eq, Structural)]
pub enum HttpVersion {
    Http09,
    Http10,
    Http11,
    H2,
    H3,
}

/// One header of a response: its name, and its value as the bytes that were received.
#[derive(Clone, Debug)]
pub struct Header {
    pub name: String,
    pub value: Vec<u8>,
}

impl View for Header {
    type V = (Seq<char>, Seq<u8>);

    open spec fn view(&self) -> (Seq<char>, Seq<u8>) {
        (self.name@, self.value@)
    }
}

/// The names and values of a list of headers.
pub open spec fn headers_view(headers: Seq<Header>) -> Seq<(Seq<char>, Seq<u8>)> {
    headers.map_values(|h: Header| h@)
}

/// A response as the transport handed it over: version, status code, the headers in the
/// order received, and the whole body as text.
#[derive(Clone, Debug)]
pub struct RawResponse {
    pub version: HttpVersion,
    pub status: u16,
    pub headers: Vec<Header>,
    pub body: String,
}

/// What a `RawResponse` holds.
pub struct ResponseView {
    pub version: HttpVersion,
    pub status: u16,
    pub headers: Seq<(Seq<char>, Seq<u8>)>,
    pub body: Seq<char>,
}

impl View for RawResponse {
    type V = ResponseView;

    open spec fn view(&self) -> ResponseView {
        ResponseView {
            version: self.version,
            status: self.status,
            headers: headers_view(self.headers@),
            body: self.body@,
        }
    }
}

/// The media type that a `Content-Type` header names, by its essence: type and subtype in
/// lower case, without parameters.
#[derive(Clone, Debug)]
pub struct MediaType {
    pub essence: String,
}

impl View for MediaType {
    type V = Seq<char>;

    open spec fn view(&self) -> Seq<char> {
        self.essence@
    }
}

} // verus!
