//! The reader behind the pooled client's `parse_response`: an incremental,
//! strict HTTP/1.1 response reader that builds a client [`Response`].
//!
//! It differs from [`crate::wire::ResponseReader`] in what it rejects: the
//! end of the stream inside the header block, a header block over
//! [`MAX_HEAD_BYTES`], invalid header names or values, invalid chunk sizes,
//! an unframed body over [`MAX_BODY_BYTES`], and status codes outside
//! 100..=999. An unframed body is read until the stream ends or stays quiet
//! for [`MAX_QUIET_READS`] waits in a row.

use vstd::prelude::*;
use vstd::utf8::*;
use crate::client::{Response, Version, header_text, header_text_in, name_literals};
use crate::errors::{ErrorKind, KodeBridgeError};
use crate::headers::{Headers, insert_capped};
use crate::http_types::{
    StatusCode, is_token_text, lower_chars, header_text_ok, lemma_lower_token,
    http_header_name_from_str, http_header_value_valid,
};
use crate::numbers::{parse_unsigned, parse_unsigned_chars};
use crate::text::{trim, trim_chars, eq_ignore_ascii_case, eq_ignore_ascii_case_chars, chars_equal};
use crate::utf8::{chars_of, string_from_chars};
use crate::wire::{ReadAction, status_of_line, parse_status_code, header_fields, parse_header_line, append_bytes};

verus! {

/// The most bytes the status line and header lines may take together.
pub const MAX_HEAD_BYTES: usize = 16384;

/// The most bytes an unframed body may take.
pub const MAX_BODY_BYTES: usize = 67108864;

/// How many waits without data end an unframed body.
pub const MAX_QUIET_READS: u64 = 3;

/// How many bytes one read of an unframed body asks for.
pub const READ_CHUNK: usize = 4096;

/// Where the reader stands.
#[derive(Debug, Clone, Copy, PartialEq, Eq, Structural)]
pub enum ClientStep {
    /// Waiting for the status line.
    StatusLine,
    /// Reading header lines up to the empty line.
    HeaderLine,
    /// Waiting for a chunk-size line.
    ChunkSize,
    /// Waiting for the given number of chunk bytes.
    ChunkData(usize),
    /// Waiting for the two bytes that end a chunk.
    ChunkEnd,
    /// Waiting for the line after the last chunk.
    Trailer,
    /// Waiting for a body of the given length.
    FixedBody(usize),
    /// Reading an unframed body as it arrives.
    BodyAvailable,
    /// The response is complete.
    Done,
}

/// The abstract state of a [`ClientResponseReader`].
pub struct ClientReadState {
    pub step: ClientStep,
    pub status: u16,
    /// Bytes of the status line and header lines read so far.
    pub head_len: nat,
    pub headers: Seq<(Seq<char>, Seq<char>)>,
    /// Whether a header had an invalid name or value.
    pub bad_header: bool,
    pub body: Seq<u8>,
    /// Waits in a row that brought no data.
    pub quiet: nat,
}

/// The read that a step asks for.
pub open spec fn client_action(step: ClientStep) -> ReadAction {
    match step {
        ClientStep::StatusLine => ReadAction::ReadLine,
        ClientStep::HeaderLine => ReadAction::ReadLine,
        ClientStep::ChunkSize => ReadAction::ReadLine,
        ClientStep::ChunkData(n) => ReadAction::ReadExact(n),
        ClientStep::ChunkEnd => ReadAction::ReadExact(2),
        ClientStep::Trailer => ReadAction::ReadLine,
        ClientStep::FixedBody(n) => ReadAction::ReadExact(n),
        ClientStep::BodyAvailable => ReadAction::ReadAvailable,
        ClientStep::Done => ReadAction::Finish,
    }
}

/// Whether a step expects a line.
pub open spec fn client_expects_line(step: ClientStep) -> bool {
    match step {
        ClientStep::StatusLine | ClientStep::HeaderLine | ClientStep::ChunkSize | ClientStep::Trailer => true,
        _ => false,
    }
}

/// Whether a step expects `len` bytes.
pub open spec fn client_expects_bytes(step: ClientStep, len: nat) -> bool {
    match step {
        ClientStep::ChunkData(n) => len == n,
        ClientStep::ChunkEnd => len == 2,
        ClientStep::FixedBody(n) => len == n,
        ClientStep::BodyAvailable => 0 < len <= READ_CHUNK,
        _ => false,
    }
}

/// The state after one header line: a `name: value` line with a valid name
/// and value is inserted (name lowercased); an invalid one marks the block
/// bad; a line without a colon is skipped.
pub open spec fn after_client_header(st: ClientReadState, line: Seq<char>) -> ClientReadState {
    match header_fields(line) {
        Some((k, v)) => if st.bad_header {
            st
        } else if is_token_text(k) && k.len() <= 65535 && header_text_ok(v) {
            ClientReadState { headers: insert_capped(st.headers, lower_chars(k), v), ..st }
        } else {
            ClientReadState { bad_header: true, ..st }
        },
        None => st,
    }
}

/// How the body is framed by the headers: a `transfer-encoding` of
/// `chunked` (any case) wins; else a `content-length` that parses as a
/// `usize` (0 meaning no body); else the body runs until the stream ends.
pub open spec fn client_body_step(hs: Seq<(Seq<char>, Seq<char>)>) -> ClientStep {
    let chunked = match header_text(hs, "transfer-encoding"@) {
        Some(t) => eq_ignore_ascii_case(t, "chunked"@),
        None => false,
    };
    let length = match header_text(hs, "content-length"@) {
        Some(t) => parse_unsigned(t, 10, usize::MAX as nat),
        None => None,
    };
    if chunked {
        ClientStep::ChunkSize
    } else {
        match length {
            Some(n) => if n == 0 {
                ClientStep::Done
            } else {
                ClientStep::FixedBody(n as usize)
            },
            None => ClientStep::BodyAvailable,
        }
    }
}

/// The outcome of reading `line` (empty at the end of the stream).
pub open spec fn client_after_line(st: ClientReadState, line: Seq<char>) -> Result<ClientReadState, ErrorKind> {
    match st.step {
        ClientStep::StatusLine => Ok(
            ClientReadState {
                step: ClientStep::HeaderLine,
                status: status_of_line(line),
                head_len: encode_utf8(line).len(),
                ..st
            },
        ),
        ClientStep::HeaderLine => if line.len() == 0 {
            Err(ErrorKind::Protocol)
        } else if line == "\r\n"@ {
            if st.bad_header {
                Err(ErrorKind::Http)
            } else {
                Ok(ClientReadState { step: client_body_step(st.headers), ..st })
            }
        } else if st.head_len + encode_utf8(line).len() > MAX_HEAD_BYTES {
            Err(ErrorKind::Protocol)
        } else {
            Ok(
                after_client_header(
                    ClientReadState { head_len: st.head_len + encode_utf8(line).len(), ..st },
                    line,
                ),
            )
        },
        ClientStep::ChunkSize => if trim(line).len() == 0 {
            Ok(st)
        } else {
            match parse_unsigned(trim(line), 16, usize::MAX as nat) {
                None => Err(ErrorKind::Protocol),
                Some(n) => if n == 0 {
                    Ok(ClientReadState { step: ClientStep::Trailer, ..st })
                } else {
                    Ok(ClientReadState { step: ClientStep::ChunkData(n as usize), ..st })
                },
            }
        },
        ClientStep::Trailer => Ok(ClientReadState { step: ClientStep::Done, ..st }),
        _ => Ok(st),
    }
}

/// The message of the error that reading `line` gives, where
/// [`client_after_line`] is an error.
pub open spec fn client_line_message(st: ClientReadState, line: Seq<char>) -> Seq<char> {
    match st.step {
        ClientStep::HeaderLine => if line.len() == 0 {
            "Unexpected end of stream"@
        } else if line == "\r\n"@ {
            "invalid header name or value"@
        } else {
            "HTTP headers too large"@
        },
        _ => "Invalid chunk size"@,
    }
}

/// The outcome of reading `data`.
pub open spec fn client_after_bytes(st: ClientReadState, data: Seq<u8>) -> Result<ClientReadState, ErrorKind> {
    match st.step {
        ClientStep::ChunkData(_) => Ok(ClientReadState { step: ClientStep::ChunkEnd, body: st.body + data, ..st }),
        ClientStep::ChunkEnd => Ok(ClientReadState { step: ClientStep::ChunkSize, ..st }),
        ClientStep::FixedBody(_) => Ok(ClientReadState { step: ClientStep::Done, body: data, ..st }),
        ClientStep::BodyAvailable => if st.body.len() + data.len() > MAX_BODY_BYTES {
            Err(ErrorKind::Protocol)
        } else {
            Ok(ClientReadState { body: st.body + data, quiet: 0, ..st })
        },
        _ => Ok(st),
    }
}

/// The state after a wait that brought no data.
pub open spec fn client_after_quiet(st: ClientReadState) -> ClientReadState {
    if st.quiet + 1 >= MAX_QUIET_READS {
        ClientReadState { step: ClientStep::Done, quiet: st.quiet + 1, ..st }
    } else {
        ClientReadState { quiet: st.quiet + 1, ..st }
    }
}

/// How long the next read of an unframed body may wait, in milliseconds:
/// 100, plus 50 per wait in a row without data, the addition capped at 1000.
pub open spec fn read_wait(quiet: nat) -> nat {
    if quiet * 50 < 1000 {
        100 + quiet * 50
    } else {
        1100
    }
}

/// The state of a reader that has read nothing.
pub open spec fn client_initial() -> ClientReadState {
    ClientReadState {
        step: ClientStep::StatusLine,
        status: 0,
        head_len: 0,
        headers: Seq::empty(),
        bad_header: false,
        body: Seq::empty(),
        quiet: 0,
    }
}

/// Incremental strict reader of an HTTP/1.1 response.
pub struct ClientResponseReader {
    step: ClientStep,
    status: u16,
    head_len: usize,
    headers: Headers,
    bad_header: bool,
    body: Vec<u8>,
    quiet: u64,
}

impl ClientResponseReader {
    /// The abstract state.
    pub closed spec fn state(&self) -> ClientReadState {
        ClientReadState {
            step: self.step,
            status: self.status,
            head_len: self.head_len as nat,
            headers: self.headers@,
            bad_header: self.bad_header,
            body: self.body@,
            quiet: self.quiet as nat,
        }
    }

    /// Internal consistency.
    pub closed spec fn wf(&self) -> bool {
        &&& self.headers.wf()
        &&& self.quiet <= MAX_QUIET_READS
        &&& self.step == ClientStep::BodyAvailable ==> self.quiet < MAX_QUIET_READS
        &&& self.step == ClientStep::BodyAvailable ==> self.body@.len() <= MAX_BODY_BYTES
        &&& self.step == ClientStep::StatusLine || self.step == ClientStep::HeaderLine ==> self.body@.len() == 0 && self.quiet == 0
        &&& self.step != ClientStep::StatusLine && self.step != ClientStep::HeaderLine ==> !self.bad_header
    }

    /// A reader that has read nothing.
    pub fn new() -> (r: ClientResponseReader)
        ensures
            r.wf(),
            r.state() == client_initial(),
    {
        ClientResponseReader {
            step: ClientStep::StatusLine,
            status: 0,
            head_len: 0,
            headers: Headers::new(),
            bad_header: false,
            body: Vec::new(),
            quiet: 0,
        }
    }

    /// The next read to perform.
    pub fn next_action(&self) -> (r: ReadAction)
        ensures
            r == client_action(self.state().step),
    {
        match self.step {
            ClientStep::StatusLine => ReadAction::ReadLine,
            ClientStep::HeaderLine => ReadAction::ReadLine,
            ClientStep::ChunkSize => ReadAction::ReadLine,
            ClientStep::ChunkData(n) => ReadAction::ReadExact(n),
            ClientStep::ChunkEnd => ReadAction::ReadExact(2),
            ClientStep::Trailer => ReadAction::ReadLine,
            ClientStep::FixedBody(n) => ReadAction::ReadExact(n),
            ClientStep::BodyAvailable => ReadAction::ReadAvailable,
            ClientStep::Done => ReadAction::Finish,
        }
    }

    /// How long the next read of an unframed body may wait, in milliseconds.
    pub fn read_wait_ms(&self) -> (r: u64)
        requires
            self.wf(),
        ensures
            r == read_wait(self.state().quiet),
    {
        if self.quiet * 50 < 1000 {
            100 + self.quiet * 50
        } else {
            1100
        }
    }

    fn on_header(&mut self, line: &[char])
        requires
            old(self).wf(),
            old(self).state().step == ClientStep::HeaderLine,
        ensures
            final(self).wf(),
            final(self).state() == after_client_header(old(self).state(), line@),
    {
        match parse_header_line(line) {
            Some((k, v)) => {
                if !self.bad_header {
                    let ks = string_from_chars(k.as_slice());
                    let vs = string_from_chars(v.as_slice());
                    let name = http_header_name_from_str(ks.as_str());
                    let value_ok = http_header_value_valid(vs.as_str());
                    match name {
                        Some(n) => {
                            if value_ok {
                                proof {
                                    lemma_lower_token(ks@);
                                }
                                self.headers.insert(n.as_str(), vs.as_str());
                            } else {
                                self.bad_header = true;
                            }
                        },
                        None => {
                            self.bad_header = true;
                        },
                    }
                }
            },
            None => {},
        }
    }

    fn body_step(&self) -> (r: ClientStep)
        requires
            self.wf(),
        ensures
            r == client_body_step(self.state().headers),
    {
        proof {
            name_literals();
        }
        let chunked = match header_text_in(&self.headers, "transfer-encoding") {
            Some(t) => {
                let tc = chars_of(t.as_str());
                let ch = chars_of("chunked");
                eq_ignore_ascii_case_chars(tc.as_slice(), ch.as_slice())
            },
            None => false,
        };
        let length = match header_text_in(&self.headers, "content-length") {
            Some(t) => {
                let tc = chars_of(t.as_str());
                parse_unsigned_chars(tc.as_slice(), 10, usize::MAX as u64)
            },
            None => None,
        };
        if chunked {
            ClientStep::ChunkSize
        } else {
            match length {
                Some(n) => if n == 0 {
                    ClientStep::Done
                } else {
                    ClientStep::FixedBody(n as usize)
                },
                None => ClientStep::BodyAvailable,
            }
        }
    }

    /// Hands over a line read for `ReadLine` (empty at the end of the
    /// stream).
    pub fn on_line(&mut self, line: &str) -> (r: Result<(), KodeBridgeError>)
        requires
            old(self).wf(),
            client_expects_line(old(self).state().step),
        ensures
            final(self).wf(),
            match (r, client_after_line(old(self).state(), line@)) {
                (Ok(()), Ok(s)) => final(self).state() == s,
                (Err(e), Err(k)) => e.kind == k && e.message@ == client_line_message(
                    old(self).state(),
                    line@,
                ),
                _ => false,
            },
    {
        let cs = chars_of(line);
        let n = line.as_bytes().len();
        match self.step {
            ClientStep::StatusLine => {
                self.status = parse_status_code(cs.as_slice());
                self.head_len = n;
                self.step = ClientStep::HeaderLine;
                Ok(())
            },
            ClientStep::HeaderLine => {
                let crlf: Vec<char> = chars_of("\r\n");
                if cs.len() == 0 {
                    Err(KodeBridgeError::new(ErrorKind::Protocol, "Unexpected end of stream"))
                } else if chars_equal(cs.as_slice(), crlf.as_slice()) {
                    if self.bad_header {
                        Err(KodeBridgeError::new(ErrorKind::Http, "invalid header name or value"))
                    } else {
                        self.step = self.body_step();
                        Ok(())
                    }
                } else if n > MAX_HEAD_BYTES || self.head_len > MAX_HEAD_BYTES - n {
                    Err(KodeBridgeError::new(ErrorKind::Protocol, "HTTP headers too large"))
                } else {
                    self.head_len = self.head_len + n;
                    self.on_header(cs.as_slice());
                    Ok(())
                }
            },
            ClientStep::ChunkSize => {
                let t = trim_chars(cs.as_slice());
                if t.len() == 0 {
                    Ok(())
                } else {
                    match parse_unsigned_chars(t.as_slice(), 16, usize::MAX as u64) {
                        None => Err(KodeBridgeError::new(ErrorKind::Protocol, "Invalid chunk size")),
                        Some(size) => {
                            if size == 0 {
                                self.step = ClientStep::Trailer;
                            } else {
                                self.step = ClientStep::ChunkData(size as usize);
                            }
                            Ok(())
                        },
                    }
                }
            },
            _ => {
                self.step = ClientStep::Done;
                Ok(())
            },
        }
    }

    /// Hands over the bytes read for `ReadExact` or `ReadAvailable`.
    pub fn on_bytes(&mut self, data: &[u8]) -> (r: Result<(), KodeBridgeError>)
        requires
            old(self).wf(),
            client_expects_bytes(old(self).state().step, data@.len()),
        ensures
            final(self).wf(),
            match (r, client_after_bytes(old(self).state(), data@)) {
                (Ok(()), Ok(s)) => final(self).state() == s,
                (Err(e), Err(k)) => e.kind == k && e.message@ == "Response body too large"@,
                _ => false,
            },
    {
        match self.step {
            ClientStep::ChunkData(_) => {
                append_bytes(&mut self.body, data);
                self.step = ClientStep::ChunkEnd;
                Ok(())
            },
            ClientStep::ChunkEnd => {
                self.step = ClientStep::ChunkSize;
                Ok(())
            },
            ClientStep::FixedBody(_) => {
                let mut b: Vec<u8> = Vec::new();
                append_bytes(&mut b, data);
                self.body = b;
                self.step = ClientStep::Done;
                Ok(())
            },
            _ => {
                if data.len() > MAX_BODY_BYTES - self.body.len() {
                    Err(KodeBridgeError::new(ErrorKind::Protocol, "Response body too large"))
                } else {
                    append_bytes(&mut self.body, data);
                    self.quiet = 0;
                    Ok(())
                }
            },
        }
    }

    /// Reports a wait for `ReadAvailable` that brought no data.
    pub fn on_quiet(&mut self)
        requires
            old(self).wf(),
            old(self).state().step == ClientStep::BodyAvailable,
        ensures
            final(self).wf(),
            final(self).state() == client_after_quiet(old(self).state()),
    {
        if self.quiet + 1 >= MAX_QUIET_READS {
            self.step = ClientStep::Done;
            self.quiet = self.quiet + 1;
        } else {
            self.quiet = self.quiet + 1;
        }
    }

    /// Reports the end of the stream for `ReadAvailable`.
    pub fn on_end(&mut self)
        requires
            old(self).wf(),
            old(self).state().step == ClientStep::BodyAvailable,
        ensures
            final(self).wf(),
            final(self).state() == (ClientReadState { step: ClientStep::Done, ..old(self).state() }),
    {
        self.step = ClientStep::Done;
    }

    /// The response once the reader is done: an HTTP error when the status
    /// code is outside 100..=999.
    pub fn finish(self) -> (r: Result<Response, KodeBridgeError>)
        requires
            self.wf(),
        ensures
            match r {
                Ok(resp) => {
                    &&& 100 <= self.state().status <= 999
                    &&& resp.wf()
                    &&& resp.spec_status()@ == self.state().status
                    &&& resp.spec_version() == Version::Http11
                    &&& resp.spec_headers() == self.state().headers
                    &&& resp.spec_body() == self.state().body
                },
                Err(e) => !(100 <= self.state().status <= 999) && e.kind == ErrorKind::Http
                    && e.message@ == "invalid status code"@,
            },
    {
        let ClientResponseReader { step, status, head_len, headers, bad_header, body, quiet } = self;
        match StatusCode::from_u16(status) {
            Some(code) => Ok(Response::new(code, Version::Http11, headers, body)),
            None => Err(KodeBridgeError::new(ErrorKind::Http, "invalid status code")),
        }
    }
}

} // verus!
