//! The request framer: it reads one HTTP request out of the bytes that a
//! connection's reader holds. The end of the bytes counts as the end of the
//! stream, and the body is taken from these bytes alone.

use crate::decode::{is_json, is_json_text, lossy_text, utf8_lossy, utf8_text};
use crate::text::{
    chars_of, decimal_value, find_separator, index_of_separator, lemma_scan_bounds, parse_decimal,
    separator_at, skip_spaces, skip_token, skip_whitespace, skip_word, str_eq, trim, trimmed,
};
use crate::text_map::TextMap;
use vstd::prelude::*;
use vstd::slice::slice_subrange;
use vstd::string::*;
use vstd::utf8::*;

verus! {

/// Why a request could not be framed.
#[derive(Debug)]
pub enum RequestError {
    /// The request line is not text.
    ReadRequestLineError,
    /// The request line has fewer than two words, or the body does not fit
    /// the declared content type.
    InvalidRequestLineFormat,
    /// A header line is not text.
    ReadHeaderLineError,
    /// A header line has no colon followed by a space; it holds the line.
    InvalidHeaderLine(String),
    /// The declared content length is more than the bytes at hand.
    ContentLengthExceedsData,
    /// The decoded body is not as long as the declared content length.
    BodyLengthMismatch,
    /// The body could not be read.
    ReadBodyError,
    /// The declared content length is no unsigned decimal.
    InvalidContentLength,
}

/// What a `RequestError` stands for in contracts.
pub enum Fault {
    ReadRequestLineError,
    InvalidRequestLineFormat,
    ReadHeaderLineError,
    InvalidHeaderLine(Seq<char>),
    ContentLengthExceedsData,
    BodyLengthMismatch,
    ReadBodyError,
    InvalidContentLength,
}

impl View for RequestError {
    type V = Fault;

    open spec fn view(&self) -> Fault {
        match self {
            RequestError::ReadRequestLineError => Fault::ReadRequestLineError,
            RequestError::InvalidRequestLineFormat => Fault::InvalidRequestLineFormat,
            RequestError::ReadHeaderLineError => Fault::ReadHeaderLineError,
            RequestError::InvalidHeaderLine(line) => Fault::InvalidHeaderLine(line@),
            RequestError::ContentLengthExceedsData => Fault::ContentLengthExceedsData,
            RequestError::BodyLengthMismatch => Fault::BodyLengthMismatch,
            RequestError::ReadBodyError => Fault::ReadBodyError,
            RequestError::InvalidContentLength => Fault::InvalidContentLength,
        }
    }
}

/// The sentence that describes a fault.
pub open spec fn fault_message(fault: Fault) -> Seq<char> {
    match fault {
        Fault::ReadRequestLineError => "Failed to read request line"@,
        Fault::InvalidRequestLineFormat => "Invalid request line format"@,
        Fault::ReadHeaderLineError => "Failed to read header line"@,
        Fault::InvalidHeaderLine(line) => "Invalid header line: "@ + line,
        Fault::ContentLengthExceedsData => "Content-Length exceeds available data"@,
        Fault::BodyLengthMismatch => "Body length does not match Content-Length header"@,
        Fault::ReadBodyError => "Failed to read body"@,
        Fault::InvalidContentLength => "Invalid Content-Length value"@,
    }
}

impl RequestError {
    /// The sentence that describes the error.
    pub fn message(&self) -> (text: String)
        ensures
            text@ == fault_message(self@),
    {
        match self {
            RequestError::ReadRequestLineError => "Failed to read request line".to_owned(),
            RequestError::InvalidRequestLineFormat => "Invalid request line format".to_owned(),
            RequestError::ReadHeaderLineError => "Failed to read header line".to_owned(),
            RequestError::InvalidHeaderLine(line) => {
                let mut text = "Invalid header line: ".to_owned();
                text.append(line.as_str());
                text
            },
            RequestError::ContentLengthExceedsData => {
                "Content-Length exceeds available data".to_owned()
            },
            RequestError::BodyLengthMismatch => {
                "Body length does not match Content-Length header".to_owned()
            },
            RequestError::ReadBodyError => "Failed to read body".to_owned(),
            RequestError::InvalidContentLength => "Invalid Content-Length value".to_owned(),
        }
    }
}

/// One framed request.
#[derive(Debug)]
pub struct Request {
    /// The first word of the request line.
    pub method: String,
    /// The second word of the request line, taken as it stands.
    pub uri: String,
    /// The header fields; a name that came twice holds its last value.
    pub headers: TextMap,
    /// The body, empty where no content length was declared.
    pub body: String,
}

/// What a `Request` stands for in contracts.
pub struct RequestModel {
    pub method: Seq<char>,
    pub uri: Seq<char>,
    pub headers: Map<Seq<char>, Seq<char>>,
    pub body: Seq<char>,
}

impl View for Request {
    type V = RequestModel;

    open spec fn view(&self) -> RequestModel {
        RequestModel {
            method: self.method@,
            uri: self.uri@,
            headers: self.headers@,
            body: self.body@,
        }
    }
}

/// What a declared content type asks of the body.
#[derive(Clone, Copy, Debug, PartialEq, Eq, Structural)]
pub enum MediaType {
    /// `application/json`: the body must be JSON.
    Json,
    /// `text/plain`: any body will do.
    Plain,
    /// Anything else: no body will do.
    Other,
}

/// The index just after the first line feed at or after `from`, or the
/// length of `input` when no line feed follows.
pub open spec fn line_end(input: Seq<u8>, from: int) -> int
    decreases input.len() - from,
{
    if 0 <= from < input.len() {
        if input[from] == 10 {
            from + 1
        } else {
            line_end(input, from + 1)
        }
    } else {
        from
    }
}

/// The line that starts at `from`, with its line feed, as text; `None`
/// where its bytes are no well-formed UTF-8.
pub open spec fn line_at(input: Seq<u8>, from: int) -> Option<Seq<char>> {
    let bytes = input.subrange(from, line_end(input, from));
    if valid_utf8(bytes) {
        Some(decode_utf8(bytes))
    } else {
        None
    }
}

/// The method and the target of a request line: its first two words.
pub open spec fn request_line(text: Seq<char>) -> Option<(Seq<char>, Seq<char>)> {
    let method_start = skip_spaces(text, 0);
    let method_end = skip_word(text, method_start);
    let uri_start = skip_spaces(text, method_end);
    let uri_end = skip_word(text, uri_start);
    if method_start < text.len() && uri_start < text.len() {
        Some((text.subrange(method_start, method_end), text.subrange(uri_start, uri_end)))
    } else {
        None
    }
}

/// The name and the value of a header line: what stands before the first
/// colon followed by a space, and what stands after it, trimmed.
pub open spec fn header_field(text: Seq<char>) -> Option<(Seq<char>, Seq<char>)> {
    let at = find_separator(text, 0);
    if at < text.len() {
        Some((text.subrange(0, at), trimmed(text.subrange(at + 2, text.len() as int))))
    } else {
        None
    }
}

/// Whether a line ends the header section: the empty line, or no line at
/// all at the end of the bytes.
pub open spec fn ends_headers(text: Seq<char>) -> bool {
    text.len() == 0 || text == "\r\n"@
}

/// The header fields read from `from` on, added to `held`, and the index at
/// which the body starts.
pub open spec fn header_section(
    input: Seq<u8>,
    from: int,
    held: Map<Seq<char>, Seq<char>>,
) -> Result<(Map<Seq<char>, Seq<char>>, int), Fault>
    decreases input.len() - from,
    when 0 <= from <= input.len()
    via header_section_decreases
{
    match line_at(input, from) {
        None => Err(Fault::ReadHeaderLineError),
        Some(text) => {
            if ends_headers(text) {
                Ok((held, line_end(input, from)))
            } else {
                match header_field(text) {
                    None => Err(Fault::InvalidHeaderLine(text)),
                    Some(field) => header_section(
                        input,
                        line_end(input, from),
                        held.insert(field.0, field.1),
                    ),
                }
            }
        },
    }
}

#[via_fn]
proof fn header_section_decreases(input: Seq<u8>, from: int, held: Map<Seq<char>, Seq<char>>) {
    lemma_line_end_bounds(input, from);
    if line_end(input, from) == from {
        assert(input.subrange(from, from) =~= Seq::<u8>::empty());
    }
}

/// The text that bytes decode to: their characters where they are
/// well-formed UTF-8, and else what lossy decoding makes of them.
pub open spec fn decoded(bytes: Seq<u8>) -> Seq<char> {
    if valid_utf8(bytes) {
        decode_utf8(bytes)
    } else {
        utf8_lossy(bytes)
    }
}

/// The body that the headers declare, taken from the bytes at `from`.
pub open spec fn body_of(input: Seq<u8>, from: int, headers: Map<Seq<char>, Seq<char>>) -> Result<
    Seq<char>,
    Fault,
> {
    if headers.contains_key("Content-Length"@) {
        match decimal_value(headers["Content-Length"@]) {
            None => Err(Fault::InvalidContentLength),
            Some(length) => {
                if length > input.len() - from {
                    Err(Fault::ContentLengthExceedsData)
                } else {
                    let text = decoded(input.subrange(from, from + length));
                    if encode_utf8(text).len() == length {
                        Ok(text)
                    } else {
                        Err(Fault::BodyLengthMismatch)
                    }
                }
            },
        }
    } else {
        Ok(Seq::empty())
    }
}

/// What a content type asks of the body.
pub open spec fn media_of(content_type: Seq<char>) -> MediaType {
    if content_type == "application/json"@ {
        MediaType::Json
    } else if content_type == "text/plain"@ {
        MediaType::Plain
    } else {
        MediaType::Other
    }
}

/// Whether the body fits the content type that the headers declare.
pub open spec fn body_accepted(headers: Map<Seq<char>, Seq<char>>, body: Seq<char>) -> bool {
    headers.contains_key("Content-Type"@) ==> match media_of(headers["Content-Type"@]) {
        MediaType::Json => is_json_text(body),
        MediaType::Plain => true,
        MediaType::Other => false,
    }
}

/// The request that the bytes hold, or the first fault met on the way.
pub open spec fn parse(input: Seq<u8>) -> Result<RequestModel, Fault> {
    match line_at(input, 0) {
        None => Err(Fault::ReadRequestLineError),
        Some(first) => match request_line(first) {
            None => Err(Fault::InvalidRequestLineFormat),
            Some(words) => match header_section(input, line_end(input, 0), Map::empty()) {
                Err(fault) => Err(fault),
                Ok(head) => match body_of(input, head.1, head.0) {
                    Err(fault) => Err(fault),
                    Ok(body) => {
                        if body_accepted(head.0, body) {
                            Ok(
                                RequestModel {
                                    method: words.0,
                                    uri: words.1,
                                    headers: head.0,
                                    body: body,
                                },
                            )
                        } else {
                            Err(Fault::InvalidRequestLineFormat)
                        }
                    },
                },
            },
        },
    }
}

/// Whether every line from `start` up to `from` is a header line with a
/// name and a value, so that reading the header section gets as far as
/// `from`.
pub open spec fn fields_until(input: Seq<u8>, start: int, from: int) -> bool
    decreases input.len() - start,
    when 0 <= start <= input.len()
    via fields_until_decreases
{
    start == from || (start < from && match line_at(input, start) {
        Some(text) => !ends_headers(text) && header_field(text) is Some && fields_until(
            input,
            line_end(input, start),
            from,
        ),
        None => false,
    })
}

#[via_fn]
proof fn fields_until_decreases(input: Seq<u8>, start: int, from: int) {
    lemma_line_end_bounds(input, start);
    if line_end(input, start) == start {
        assert(input.subrange(start, start) =~= Seq::<u8>::empty());
    }
}

/// A fault in the header section is the fault of the first line that has
/// one: where the lines from `start` up to `from` are header fields, and
/// reading from `from` fails whatever was read before, reading from `start`
/// fails in the same way.
pub proof fn lemma_header_fault_reached(
    input: Seq<u8>,
    start: int,
    from: int,
    held: Map<Seq<char>, Seq<char>>,
    fault: Fault,
)
    requires
        0 <= start <= from <= input.len(),
        fields_until(input, start, from),
        forall|any: Map<Seq<char>, Seq<char>>|
            header_section(input, from, any) == Err::<(Map<Seq<char>, Seq<char>>, int), Fault>(
                fault,
            ),
    ensures
        header_section(input, start, held) == Err::<(Map<Seq<char>, Seq<char>>, int), Fault>(
            fault,
        ),
    decreases input.len() - start,
{
    if start != from {
        let text = line_at(input, start)->0;
        let field = header_field(text)->0;
        lemma_line_end_bounds(input, start);
        let next = line_end(input, start);
        assert(next <= from) by {
            reveal_with_fuel(fields_until, 2);
        }
        lemma_header_fault_reached(input, next, from, held.insert(field.0, field.1), fault);
    }
}

/// A header line without a colon followed by a space fails the request with
/// the fault that names the line, wherever in the header section it stands.
pub proof fn law_header_line_without_separator(input: Seq<u8>, from: int, line: Seq<char>)
    requires
        line_at(input, 0) is Some,
        request_line(line_at(input, 0)->0) is Some,
        line_end(input, 0) <= from <= input.len(),
        fields_until(input, line_end(input, 0), from),
        line_at(input, from) == Some(line),
        !ends_headers(line),
        forall|at: int| !separator_at(line, at),
    ensures
        parse(input) == Err::<RequestModel, Fault>(Fault::InvalidHeaderLine(line)),
{
    lemma_line_end_bounds(input, 0);
    lemma_scan_bounds(line, ':', 0);
    assert(header_field(line) is None);
    assert forall|any: Map<Seq<char>, Seq<char>>|
        header_section(input, from, any) == Err::<(Map<Seq<char>, Seq<char>>, int), Fault>(
            Fault::InvalidHeaderLine(line),
        ) by {}
    lemma_header_fault_reached(
        input,
        line_end(input, 0),
        from,
        Map::empty(),
        Fault::InvalidHeaderLine(line),
    );
}

/// The head of a request: its header fields and the index at which its
/// body starts.
pub struct HeadModel {
    pub fields: Map<Seq<char>, Seq<char>>,
    pub body_start: int,
}

/// The head of a request whose request line and header section are sound.
pub open spec fn head_of(input: Seq<u8>) -> Option<HeadModel> {
    if line_at(input, 0) is Some && request_line(line_at(input, 0)->0) is Some {
        match header_section(input, line_end(input, 0), Map::empty()) {
            Ok(head) => Some(HeadModel { fields: head.0, body_start: head.1 }),
            Err(_) => None,
        }
    } else {
        None
    }
}

/// The content length that a request with a sound head declares.
pub open spec fn declared_length(input: Seq<u8>) -> Option<usize> {
    match head_of(input) {
        Some(head) => if head.fields.contains_key("Content-Length"@) {
            decimal_value(head.fields["Content-Length"@])
        } else {
            None
        },
        None => None,
    }
}

/// The index at which the body of a request with a sound head starts.
pub open spec fn body_start(input: Seq<u8>) -> int {
    head_of(input)->0.body_start
}

/// The bytes that a request with a sound head declares as its body.
pub open spec fn declared_bytes(input: Seq<u8>) -> Seq<u8> {
    input.subrange(body_start(input), body_start(input) + declared_length(input)->0)
}

/// A request that declares more content than the bytes hold after its
/// header section fails with the fault that says so.
pub proof fn law_content_length_exceeds_data(input: Seq<u8>)
    requires
        declared_length(input) is Some,
        declared_length(input)->0 > input.len() - body_start(input),
    ensures
        parse(input) == Err::<RequestModel, Fault>(Fault::ContentLengthExceedsData),
{
}

/// A request with a sound head, which declares a content length that the
/// bytes after the head cover, and whose body is well-formed UTF-8 and fits
/// its content type, is framed without a fault, and its body is just the
/// bytes that were declared.
pub proof fn law_declared_body_is_read(input: Seq<u8>)
    requires
        declared_length(input) is Some,
        declared_length(input)->0 <= input.len() - body_start(input),
        valid_utf8(declared_bytes(input)),
        body_accepted(head_of(input)->0.fields, decode_utf8(declared_bytes(input))),
    ensures
        parse(input) is Ok,
        encode_utf8(parse(input)->Ok_0.body) == declared_bytes(input),
        encode_utf8(parse(input)->Ok_0.body).len() == declared_length(input)->0,
{
    lemma_line_end_bounds(input, 0);
    lemma_body_start(input, line_end(input, 0), Map::empty());
    decode_utf8_encode_utf8(declared_bytes(input));
}

/// The body starts inside the bytes, after the header section.
pub proof fn lemma_body_start(input: Seq<u8>, from: int, held: Map<Seq<char>, Seq<char>>)
    requires
        0 <= from <= input.len(),
        header_section(input, from, held) is Ok,
    ensures
        from <= header_section(input, from, held)->Ok_0.1 <= input.len(),
    decreases input.len() - from,
{
    lemma_line_end_bounds(input, from);
    let text = line_at(input, from)->0;
    if !ends_headers(text) {
        if line_end(input, from) == from {
            assert(input.subrange(from, from) =~= Seq::<u8>::empty());
        }
        let field = header_field(text)->0;
        lemma_body_start(input, line_end(input, from), held.insert(field.0, field.1));
    }
}

/// The body of a framed request is as long, in bytes, as its
/// `Content-Length` says, and empty where the request has no such header.
pub proof fn law_body_length(input: Seq<u8>)
    requires
        parse(input) is Ok,
    ensures
        parse(input)->Ok_0.headers.contains_key("Content-Length"@) ==> decimal_value(
            parse(input)->Ok_0.headers["Content-Length"@],
        ) == Some(encode_utf8(parse(input)->Ok_0.body).len() as usize),
        !parse(input)->Ok_0.headers.contains_key("Content-Length"@) ==> parse(input)->Ok_0.body.len()
            == 0,
{
}

/// A line ends inside the bytes, and after its start unless it starts at
/// their end.
pub proof fn lemma_line_end_bounds(input: Seq<u8>, from: int)
    requires
        0 <= from <= input.len(),
    ensures
        from <= line_end(input, from) <= input.len(),
        from < input.len() ==> from < line_end(input, from),
    decreases input.len() - from,
{
    if from < input.len() && input[from] != 10 {
        lemma_line_end_bounds(input, from + 1);
    }
}

/// The index just after the first line feed at or after `from`.
pub fn find_line_end(input: &[u8], from: usize) -> (end: usize)
    requires
        from <= input.len(),
    ensures
        end == line_end(input@, from as int),
        from <= end <= input.len(),
{
    let mut at = from;
    while at < input.len() && input[at] != 10
        invariant
            from <= at <= input.len(),
            line_end(input@, from as int) == line_end(input@, at as int),
        decreases input.len() - at,
    {
        at += 1;
    }
    if at < input.len() {
        at + 1
    } else {
        at
    }
}

/// The line that starts at `from` and the index at which it ends.
fn read_line<'a>(input: &'a [u8], from: usize) -> (line: (Option<&'a str>, usize))
    requires
        from <= input.len(),
    ensures
        line.1 == line_end(input@, from as int),
        from <= line.1 <= input.len(),
        from < input.len() ==> from < line.1,
        match line.0 {
            Some(text) => line_at(input@, from as int) == Some(text@),
            None => line_at(input@, from as int) is None,
        },
{
    let end = find_line_end(input, from);
    let bytes = slice_subrange(input, from, end);
    let text = utf8_text(bytes);
    proof {
        lemma_line_end_bounds(input@, from as int);
        if let Some(t) = text {
            encode_utf8_decode_utf8(t@);
        }
    }
    (text, end)
}

/// Whether a line ends the header section.
pub fn ends_head(text: &str) -> (ends: bool)
    ensures
        ends == ends_headers(text@),
{
    text.is_empty() || str_eq(text, "\r\n")
}

/// The method and the target of a request line.
pub fn split_request_line(text: &str) -> (words: Option<(String, String)>)
    ensures
        match words {
            Some(pair) => request_line(text@) == Some((pair.0@, pair.1@)),
            None => request_line(text@) is None,
        },
{
    let chars = chars_of(text);
    let method_start = skip_whitespace(&chars, 0);
    let method_end = skip_token(&chars, method_start);
    let uri_start = skip_whitespace(&chars, method_end);
    let uri_end = skip_token(&chars, uri_start);
    if method_start < chars.len() && uri_start < chars.len() {
        let method = text.substring_char(method_start, method_end).to_owned();
        let uri = text.substring_char(uri_start, uri_end).to_owned();
        Some((method, uri))
    } else {
        None
    }
}

/// The name and the value of a header line.
pub fn split_header_line(text: &str) -> (field: Option<(String, String)>)
    ensures
        match field {
            Some(pair) => header_field(text@) == Some((pair.0@, pair.1@)),
            None => header_field(text@) is None,
        },
{
    let chars = chars_of(text);
    let at = index_of_separator(&chars);
    if at < chars.len() {
        proof {
            lemma_scan_bounds(chars@, ':', 0);
        }
        let name = text.substring_char(0, at).to_owned();
        let value = trim(text.substring_char(at + 2, chars.len()));
        Some((name, value))
    } else {
        None
    }
}

/// What a content type asks of the body.
pub fn media_type(content_type: &str) -> (media: MediaType)
    ensures
        media == media_of(content_type@),
{
    if str_eq(content_type, "application/json") {
        MediaType::Json
    } else if str_eq(content_type, "text/plain") {
        MediaType::Plain
    } else {
        MediaType::Other
    }
}

/// Holds a decoded body to the declared length, which counts bytes.
pub fn check_body(decoded: String, declared: usize) -> (body: Result<String, RequestError>)
    ensures
        match body {
            Ok(text) => text@ == decoded@ && encode_utf8(decoded@).len() == declared,
            Err(error) => error@ == Fault::BodyLengthMismatch && encode_utf8(decoded@).len()
                != declared,
        },
{
    if decoded.as_str().as_bytes().len() == declared {
        Ok(decoded)
    } else {
        Err(RequestError::BodyLengthMismatch)
    }
}

/// Says whether a body fits its content type, given whether it is JSON.
pub fn accepts_body(media: MediaType, body_is_json: bool) -> (accepted: bool)
    ensures
        accepted == match media {
            MediaType::Json => body_is_json,
            MediaType::Plain => true,
            MediaType::Other => false,
        },
{
    match media {
        MediaType::Json => body_is_json,
        MediaType::Plain => true,
        MediaType::Other => false,
    }
}

/// Whether the lines of `input` are a sound request line and sound header
/// lines that do not end the header section: framing would then read one
/// line more.
pub open spec fn head_is_open(input: Seq<u8>) -> bool {
    &&& line_at(input, 0) is Some
    &&& request_line(line_at(input, 0)->0) is Some
    &&& fields_until(input, line_end(input, 0), input.len() as int)
}

/// Says whether one more line is to be read after the lines in `input`,
/// before the request is framed: whether each line so far is sound and none
/// has ended the header section.
#[verifier::loop_isolation(false)]
pub fn awaits_line(input: &[u8]) -> (more: bool)
    ensures
        more == head_is_open(input@),
{
    let (first, first_end) = read_line(input, 0);
    match first {
        None => {
            return false;
        },
        Some(text) => {
            if split_request_line(text).is_none() {
                return false;
            }
        },
    }
    let mut at = first_end;
    while at < input.len()
        invariant
            first_end <= at <= input.len(),
            fields_until(input@, first_end as int, input@.len() as int) == fields_until(
                input@,
                at as int,
                input@.len() as int,
            ),
        decreases input.len() - at,
    {
        let (line, end) = read_line(input, at);
        match line {
            None => {
                return false;
            },
            Some(text) => {
                if ends_head(text) || split_header_line(text).is_none() {
                    return false;
                }
            },
        }
        at = end;
    }
    true
}

/// Frames the request that `input` holds: the request line, the header
/// lines up to the empty line, and the body that `Content-Length` declares.
#[verifier::loop_isolation(false)]
pub fn parse_request(input: &[u8]) -> (result: Result<Request, RequestError>)
    ensures
        match result {
            Ok(request) => request.headers.wf() && parse(input@) == Ok::<RequestModel, Fault>(
                request@,
            ),
            Err(error) => parse(input@) == Err::<RequestModel, Fault>(error@),
        },
        !(result matches Err(RequestError::ReadBodyError)),
{
    let (first, first_end) = read_line(input, 0);
    let first = match first {
        Some(text) => text,
        None => {
            return Err(RequestError::ReadRequestLineError);
        },
    };
    let (method, uri) = match split_request_line(first) {
        Some(words) => words,
        None => {
            return Err(RequestError::InvalidRequestLineFormat);
        },
    };
    let mut headers = TextMap::new();
    let mut at = first_end;
    let mut reading = true;
    while reading
        invariant
            at <= input.len(),
            first_end <= input.len(),
            headers.wf(),
            reading ==> header_section(input@, first_end as int, Map::empty()) == header_section(
                input@,
                at as int,
                headers@,
            ),
            !reading ==> header_section(input@, first_end as int, Map::empty()) == Ok::<
                (Map<Seq<char>, Seq<char>>, int),
                Fault,
            >((headers@, at as int)),
        decreases input.len() - at + if reading { 1int } else { 0int },
    {
        let (line, end) = read_line(input, at);
        match line {
            None => {
                return Err(RequestError::ReadHeaderLineError);
            },
            Some(text) => {
                if ends_head(text) {
                    reading = false;
                } else {
                    match split_header_line(text) {
                        None => {
                            return Err(RequestError::InvalidHeaderLine(text.to_owned()));
                        },
                        Some((name, value)) => {
                            assert(at < input.len()) by {
                                if at == input.len() {
                                    assert(input@.subrange(at as int, at as int) =~= Seq::<
                                        u8,
                                    >::empty());
                                }
                            }
                            headers.insert(name, value);
                        },
                    }
                }
                at = end;
            },
        }
    }
    let body = match headers.get("Content-Length") {
        None => String::new(),
        Some(declared) => {
            let length = match parse_decimal(declared.as_str()) {
                Some(length) => length,
                None => {
                    return Err(RequestError::InvalidContentLength);
                },
            };
            if length > input.len() - at {
                return Err(RequestError::ContentLengthExceedsData);
            }
            let decoded = lossy_text(slice_subrange(input, at, at + length));
            match check_body(decoded, length) {
                Ok(text) => text,
                Err(error) => {
                    return Err(error);
                },
            }
        },
    };
    let accepted = match headers.get("Content-Type") {
        None => true,
        Some(content_type) => {
            let media = media_type(content_type.as_str());
            let body_is_json = match media {
                MediaType::Json => is_json(body.as_str()),
                _ => false,
            };
            accepts_body(media, body_is_json)
        },
    };
    if accepted {
        Ok(Request { method, uri, headers, body })
    } else {
        Err(RequestError::InvalidRequestLineFormat)
    }
}

} // verus!
