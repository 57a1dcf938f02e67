//! The client side of the HTTP-over-IPC wire format: request framing and an
//! incremental response reader.
//!
//! The reader is a state machine. The caller asks it for the next
//! [`ReadAction`], performs that read on the connection, and hands the result
//! back with [`ResponseReader::on_line`] or [`ResponseReader::on_bytes`] until
//! the action is [`ReadAction::Finish`].

use vstd::prelude::*;
use vstd::utf8::*;
use vstd::string::StringSliceAdditionalSpecFns;
use crate::text::{
    second_token, second_token_chars, split_once, split_once_chars, trim, trim_chars,
    eq_ignore_ascii_case, eq_ignore_ascii_case_chars, chars_equal,
};
use crate::numbers::{parse_unsigned, parse_unsigned_chars, decimal, decimal_bytes};
use crate::headers::{HeaderList, insert_pair};
use crate::utf8::{chars_of, string_from_chars, string_from_utf8};
use crate::errors::{ErrorKind, KodeBridgeError};

verus! {

/// Appends the bytes of `src` to `out`.
pub fn append_bytes(out: &mut Vec<u8>, src: &[u8])
    ensures
        final(out)@ == old(out)@ + src@,
{
    let mut i: usize = 0;
    while i < src.len()
        invariant
            i <= src@.len(),
            out@ == old(out)@ + src@.subrange(0, i as int),
        decreases src@.len() - i,
    {
        out.push(src[i]);
        i = i + 1;
        assert(out@ =~= old(out)@ + src@.subrange(0, i as int));
    }
    assert(src@.subrange(0, src@.len() as int) =~= src@);
}

/// The request that the IPC clients send: request line, `Host: localhost`,
/// a `Connection` header (`keep-alive` or `close`), and for a JSON body its
/// `Content-Type` and `Content-Length`, then the body.
pub open spec fn ipc_request(method: Seq<u8>, path: Seq<u8>, body: Option<Seq<u8>>, keep_alive: bool) -> Seq<u8> {
    method + seq![0x20u8] + path + encode_utf8(" HTTP/1.1\r\nHost: localhost\r\n"@) + (if keep_alive {
        encode_utf8("Connection: keep-alive\r\n"@)
    } else {
        encode_utf8("Connection: close\r\n"@)
    }) + match body {
        Some(b) => encode_utf8("Content-Type: application/json\r\nContent-Length: "@) + decimal(
            b.len(),
        ) + encode_utf8("\r\n"@),
        None => Seq::<u8>::empty(),
    } + encode_utf8("\r\n"@) + match body {
        Some(b) => b,
        None => Seq::<u8>::empty(),
    }
}

/// Frames an HTTP/1.1 request for an IPC peer. `body` is the already
/// serialized JSON body, if any.
pub fn build_ipc_request(method: &str, path: &str, body: Option<&[u8]>, keep_alive: bool) -> (r: Vec<u8>)
    ensures
        r@ == ipc_request(
            method.spec_bytes(),
            path.spec_bytes(),
            match body {
                Some(b) => Some(b@),
                None => None,
            },
            keep_alive,
        ),
{
    let mut out: Vec<u8> = Vec::new();
    append_bytes(&mut out, method.as_bytes());
    out.push(0x20u8);
    append_bytes(&mut out, path.as_bytes());
    append_bytes(&mut out, " HTTP/1.1\r\nHost: localhost\r\n".as_bytes());
    if keep_alive {
        append_bytes(&mut out, "Connection: keep-alive\r\n".as_bytes());
    } else {
        append_bytes(&mut out, "Connection: close\r\n".as_bytes());
    }
    let ghost head = out@;
    match body {
        Some(b) => {
            append_bytes(&mut out, "Content-Type: application/json\r\nContent-Length: ".as_bytes());
            let digits = decimal_bytes(b.len() as u64);
            append_bytes(&mut out, digits.as_slice());
            append_bytes(&mut out, "\r\n".as_bytes());
        },
        None => {},
    }
    append_bytes(&mut out, "\r\n".as_bytes());
    match body {
        Some(b) => {
            append_bytes(&mut out, b);
        },
        None => {},
    }
    let ghost expected = ipc_request(
        method.spec_bytes(),
        path.spec_bytes(),
        match body {
            Some(b) => Some(b@),
            None => None,
        },
        keep_alive,
    );
    assert(out@ =~= expected);
    out
}

/// The status code on a status line: its second white-space separated token
/// read as a `u16`, or 0 when there is none or it does not parse.
pub open spec fn status_of_line(line: Seq<char>) -> u16 {
    match second_token(line) {
        Some(t) => match parse_unsigned(t, 10, 65535) {
            Some(v) => v as u16,
            None => 0,
        },
        None => 0,
    }
}

/// Reads the status code from a status line such as `HTTP/1.1 200 OK`.
pub fn parse_status_code(line: &[char]) -> (r: u16)
    ensures
        r == status_of_line(line@),
{
    match second_token_chars(line) {
        Some(t) => match parse_unsigned_chars(t.as_slice(), 10, 65535) {
            Some(v) => v as u16,
            None => 0,
        },
        None => 0,
    }
}

/// A header line split at its first colon, both sides trimmed.
pub open spec fn header_fields(line: Seq<char>) -> Option<(Seq<char>, Seq<char>)> {
    match split_once(line, ':') {
        Some((k, v)) => Some((trim(k), trim(v))),
        None => None,
    }
}

/// Splits a header line into its trimmed name and value.
pub fn parse_header_line(line: &[char]) -> (r: Option<(Vec<char>, Vec<char>)>)
    ensures
        match (r, header_fields(line@)) {
            (Some((k, v)), Some((a, b))) => k@ == a && v@ == b,
            (None, None) => true,
            _ => false,
        },
{
    match split_once_chars(line, ':') {
        Some((k, v)) => Some((trim_chars(k.as_slice()), trim_chars(v.as_slice()))),
        None => None,
    }
}

/// Where the reader stands in the response.
#[derive(Debug, Clone, Copy, PartialEq, Eq, Structural)]
pub enum ReadStep {
    /// Waiting for the status line.
    StatusLine,
    /// Reading header lines up to the empty line.
    HeaderLine,
    /// Waiting for a chunk-size line of a chunked body.
    ChunkSize,
    /// Waiting for the given number of chunk bytes.
    ChunkData(usize),
    /// Waiting for the two bytes that end a chunk.
    ChunkEnd,
    /// Waiting for the line after the last chunk.
    Trailer,
    /// Waiting for a body of the given length.
    FixedBody(usize),
    /// Reading the body until the peer closes the connection.
    BodyToEnd,
    /// The response is complete.
    Done,
}

/// What the caller must read next.
#[derive(Debug, Clone, Copy, PartialEq, Eq, Structural)]
pub enum ReadAction {
    /// Read one line (up to and including `\n`, or to the end of the stream)
    /// and pass it to `on_line`; a read error ends the exchange.
    ReadLine,
    /// Read one line and pass it to `on_line`, ignoring a read error (pass an
    /// empty line then).
    ReadLineIgnoringErrors,
    /// Read exactly this many bytes and pass them to `on_bytes`.
    ReadExact(usize),
    /// Read until the end of the stream and pass the bytes to `on_bytes`.
    ReadToEnd,
    /// Read what the stream offers (up to [`crate::client_reader::READ_CHUNK`]
    /// bytes), waiting at most the reader's `read_wait_ms`; pass the bytes
    /// to `on_bytes`, or report a wait without data with `on_quiet` and the
    /// end of the stream with `on_end`.
    ReadAvailable,
    /// Nothing more to read: call `finish`.
    Finish,
}

/// The abstract state of a [`ResponseReader`].
pub struct ReaderState {
    pub step: ReadStep,
    pub head_only: bool,
    pub status: u16,
    pub headers: Seq<(Seq<char>, Seq<char>)>,
    pub content_length: Option<usize>,
    pub chunked: bool,
    pub body: Seq<u8>,
}

/// The read that a state asks for.
pub open spec fn action_of(step: ReadStep) -> ReadAction {
    match step {
        ReadStep::StatusLine => ReadAction::ReadLine,
        ReadStep::HeaderLine => ReadAction::ReadLine,
        ReadStep::ChunkSize => ReadAction::ReadLine,
        ReadStep::ChunkData(n) => ReadAction::ReadExact(n),
        ReadStep::ChunkEnd => ReadAction::ReadExact(2),
        ReadStep::Trailer => ReadAction::ReadLineIgnoringErrors,
        ReadStep::FixedBody(n) => ReadAction::ReadExact(n),
        ReadStep::BodyToEnd => ReadAction::ReadToEnd,
        ReadStep::Done => ReadAction::Finish,
    }
}

/// Whether the state expects a line.
pub open spec fn expects_line(step: ReadStep) -> bool {
    match step {
        ReadStep::StatusLine | ReadStep::HeaderLine | ReadStep::ChunkSize | ReadStep::Trailer => true,
        _ => false,
    }
}

/// Whether the state expects bytes, and how many (`None` for any number).
pub open spec fn expects_bytes(step: ReadStep, len: nat) -> bool {
    match step {
        ReadStep::ChunkData(n) => len == n,
        ReadStep::ChunkEnd => len == 2,
        ReadStep::FixedBody(n) => len == n,
        ReadStep::BodyToEnd => true,
        _ => false,
    }
}

/// How the body is framed once the headers are read: chunked encoding wins
/// over `Content-Length`; without either the body runs to the end of stream.
pub open spec fn body_step(st: ReaderState) -> ReadStep {
    if st.head_only {
        ReadStep::Done
    } else if st.chunked {
        ReadStep::ChunkSize
    } else {
        match st.content_length {
            Some(n) => ReadStep::FixedBody(n),
            None => ReadStep::BodyToEnd,
        }
    }
}

/// The state after one header line (not the empty line).
pub open spec fn after_header(st: ReaderState, line: Seq<char>) -> ReaderState {
    match header_fields(line) {
        Some((k, v)) => ReaderState {
            content_length: if eq_ignore_ascii_case(k, "Content-Length"@) {
                match parse_unsigned(v, 10, usize::MAX as nat) {
                    Some(n) => Some(n as usize),
                    None => None,
                }
            } else {
                st.content_length
            },
            chunked: st.chunked || (eq_ignore_ascii_case(k, "Transfer-Encoding"@)
                && eq_ignore_ascii_case(v, "chunked"@)),
            headers: insert_pair(st.headers, k, v),
            ..st
        },
        None => st,
    }
}

/// The size on a chunk-size line: the trimmed line read as hexadecimal, or 0
/// when it does not parse.
pub open spec fn chunk_size_of(t: Seq<char>) -> usize {
    match parse_unsigned(t, 16, usize::MAX as nat) {
        Some(n) => n as usize,
        None => 0,
    }
}

/// The state after a line is read. An empty `line` means the stream ended.
pub open spec fn after_line(st: ReaderState, line: Seq<char>) -> ReaderState {
    match st.step {
        ReadStep::StatusLine => ReaderState { step: ReadStep::HeaderLine, status: status_of_line(line), ..st },
        ReadStep::HeaderLine => if line.len() == 0 || line == "\r\n"@ {
            ReaderState { step: body_step(st), ..st }
        } else {
            after_header(st, line)
        },
        ReadStep::ChunkSize => if line.len() == 0 {
            ReaderState { step: ReadStep::Done, ..st }
        } else if trim(line).len() == 0 {
            st
        } else if chunk_size_of(trim(line)) == 0 {
            ReaderState { step: ReadStep::Trailer, ..st }
        } else {
            ReaderState { step: ReadStep::ChunkData(chunk_size_of(trim(line))), ..st }
        },
        ReadStep::Trailer => ReaderState { step: ReadStep::Done, ..st },
        _ => st,
    }
}

/// The state after bytes are read.
pub open spec fn after_bytes(st: ReaderState, data: Seq<u8>) -> ReaderState {
    match st.step {
        ReadStep::ChunkData(_) => ReaderState { step: ReadStep::ChunkEnd, body: st.body + data, ..st },
        ReadStep::ChunkEnd => ReaderState { step: ReadStep::ChunkSize, ..st },
        ReadStep::FixedBody(_) => ReaderState { step: ReadStep::Done, body: data, ..st },
        ReadStep::BodyToEnd => ReaderState { step: ReadStep::Done, body: data, ..st },
        _ => st,
    }
}

/// The state of a reader that has read nothing yet.
pub open spec fn initial_state(head_only: bool) -> ReaderState {
    ReaderState {
        step: ReadStep::StatusLine,
        head_only,
        status: 0,
        headers: Seq::empty(),
        content_length: None,
        chunked: false,
        body: Seq::empty(),
    }
}

/// A parsed response: status code, headers (one value per name) and body.
#[derive(Debug)]
pub struct ParsedResponse {
    pub status: u16,
    pub headers: HeaderList,
    pub body: String,
}

/// Incremental reader of an HTTP/1.1 response.
pub struct ResponseReader {
    step: ReadStep,
    head_only: bool,
    status: u16,
    headers: HeaderList,
    content_length: Option<usize>,
    chunked: bool,
    body: Vec<u8>,
}

impl ResponseReader {
    /// The abstract state.
    pub closed spec fn state(&self) -> ReaderState {
        ReaderState {
            step: self.step,
            head_only: self.head_only,
            status: self.status,
            headers: self.headers@,
            content_length: self.content_length,
            chunked: self.chunked,
            body: self.body@,
        }
    }

    /// Internal consistency.
    pub closed spec fn wf(&self) -> bool {
        self.headers.wf()
    }

    /// A reader for a complete response (head and body).
    pub fn new() -> (r: ResponseReader)
        ensures
            r.state() == initial_state(false),
            r.wf(),
    {
        ResponseReader {
            step: ReadStep::StatusLine,
            head_only: false,
            status: 0,
            headers: HeaderList::new(),
            content_length: None,
            chunked: false,
            body: Vec::new(),
        }
    }

    /// A reader that stops after the header block (for streamed bodies).
    pub fn new_head_only() -> (r: ResponseReader)
        ensures
            r.state() == initial_state(true),
            r.wf(),
    {
        ResponseReader {
            step: ReadStep::StatusLine,
            head_only: true,
            status: 0,
            headers: HeaderList::new(),
            content_length: None,
            chunked: false,
            body: Vec::new(),
        }
    }

    /// The next read to perform.
    pub fn next_action(&self) -> (r: ReadAction)
        ensures
            r == action_of(self.state().step),
    {
        match self.step {
            ReadStep::StatusLine => ReadAction::ReadLine,
            ReadStep::HeaderLine => ReadAction::ReadLine,
            ReadStep::ChunkSize => ReadAction::ReadLine,
            ReadStep::ChunkData(n) => ReadAction::ReadExact(n),
            ReadStep::ChunkEnd => ReadAction::ReadExact(2),
            ReadStep::Trailer => ReadAction::ReadLineIgnoringErrors,
            ReadStep::FixedBody(n) => ReadAction::ReadExact(n),
            ReadStep::BodyToEnd => ReadAction::ReadToEnd,
            ReadStep::Done => ReadAction::Finish,
        }
    }

    fn on_header(&mut self, line: &[char])
        requires
            old(self).wf(),
        ensures
            final(self).wf(),
            final(self).state() == after_header(old(self).state(), line@),
    {
        match parse_header_line(line) {
            Some((k, v)) => {
                let cl: Vec<char> = chars_of("Content-Length");
                let te: Vec<char> = chars_of("Transfer-Encoding");
                let ch: Vec<char> = chars_of("chunked");
                if eq_ignore_ascii_case_chars(k.as_slice(), cl.as_slice()) {
                    self.content_length =
                        match parse_unsigned_chars(v.as_slice(), 10, usize::MAX as u64) {
                        Some(n) => Some(n as usize),
                        None => None,
                    };
                }
                if eq_ignore_ascii_case_chars(k.as_slice(), te.as_slice())
                    && eq_ignore_ascii_case_chars(v.as_slice(), ch.as_slice()) {
                    self.chunked = true;
                }
                let ks = string_from_chars(k.as_slice());
                let vs = string_from_chars(v.as_slice());
                self.headers.insert(ks, vs);
            },
            None => {},
        }
    }

    /// Hands over a line read for `ReadLine` or `ReadLineIgnoringErrors`;
    /// an empty line means the stream ended.
    pub fn on_line(&mut self, line: &str)
        requires
            old(self).wf(),
            expects_line(old(self).state().step),
        ensures
            final(self).wf(),
            final(self).state() == after_line(old(self).state(), line@),
    {
        let cs = chars_of(line);
        match self.step {
            ReadStep::StatusLine => {
                self.status = parse_status_code(cs.as_slice());
                self.step = ReadStep::HeaderLine;
            },
            ReadStep::HeaderLine => {
                let crlf: Vec<char> = chars_of("\r\n");
                if cs.len() == 0 || chars_equal(cs.as_slice(), crlf.as_slice()) {
                    self.step =
                        if self.head_only {
                            ReadStep::Done
                        } else if self.chunked {
                            ReadStep::ChunkSize
                        } else {
                            match self.content_length {
                                Some(n) => ReadStep::FixedBody(n),
                                None => ReadStep::BodyToEnd,
                            }
                        };
                } else {
                    self.on_header(cs.as_slice());
                }
            },
            ReadStep::ChunkSize => {
                if cs.len() == 0 {
                    self.step = ReadStep::Done;
                } else {
                    let t = trim_chars(cs.as_slice());
                    if t.len() != 0 {
                        let size: usize = match parse_unsigned_chars(t.as_slice(), 16, usize::MAX as u64) {
                            Some(n) => n as usize,
                            None => 0,
                        };
                        if size == 0 {
                            self.step = ReadStep::Trailer;
                        } else {
                            self.step = ReadStep::ChunkData(size);
                        }
                    }
                }
            },
            _ => {
                self.step = ReadStep::Done;
            },
        }
    }

    /// Hands over the bytes read for `ReadExact` or `ReadToEnd`.
    pub fn on_bytes(&mut self, data: &[u8])
        requires
            old(self).wf(),
            expects_bytes(old(self).state().step, data@.len()),
        ensures
            final(self).wf(),
            final(self).state() == after_bytes(old(self).state(), data@),
    {
        match self.step {
            ReadStep::ChunkData(_) => {
                append_bytes(&mut self.body, data);
                self.step = ReadStep::ChunkEnd;
            },
            ReadStep::ChunkEnd => {
                self.step = ReadStep::ChunkSize;
            },
            _ => {
                let mut b: Vec<u8> = Vec::new();
                append_bytes(&mut b, data);
                self.body = b;
                self.step = ReadStep::Done;
            },
        }
    }

    /// The response once the reader is done; the body must be valid UTF-8.
    pub fn finish(self) -> (r: Result<ParsedResponse, KodeBridgeError>)
        requires
            self.wf(),
        ensures
            match r {
                Ok(p) => {
                    &&& valid_utf8(self.state().body)
                    &&& p.status == self.state().status
                    &&& p.headers@ == self.state().headers
                    &&& p.headers.wf()
                    &&& p.body@ == decode_utf8(self.state().body)
                },
                Err(e) => !valid_utf8(self.state().body) && e.kind == ErrorKind::Utf8 && e.message@
                    == "response body is not valid UTF-8"@,
            },
    {
        let ResponseReader { step, head_only, status, headers, content_length, chunked, body } = self;
        match string_from_utf8(body) {
            Ok(text) => Ok(ParsedResponse { status, headers, body: text }),
            Err(_) => Err(KodeBridgeError::new(ErrorKind::Utf8, "response body is not valid UTF-8")),
        }
    }
}

} // verus!
