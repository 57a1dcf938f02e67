//! Server configuration, statistics, and the decisions the connection loop
//! makes (which response to send for each outcome, when to stop serving a
//! connection).

use vstd::prelude::*;
use vstd::utf8::*;
use crate::http_types::StatusCode;
use crate::response::{HttpResponse, with_header};
use crate::request::{now, parse_request, parse_request_spec, context_of, ClientInfo, RequestContext};
use crate::errors::{ErrorKind, KodeBridgeError};

verus! {

/// The duration of `secs` whole seconds, as `std::time::Duration::from_secs`
/// makes it.
pub uninterp spec fn secs_duration(secs: u64) -> std::time::Duration;

/// `std::time::Duration::from_secs`: the duration of `secs` whole seconds
/// (it never panics).
#[verifier::external_body]
fn duration_from_secs(secs: u64) -> (r: std::time::Duration)
    ensures
        r == secs_duration(secs),
{
    std::time::Duration::from_secs(secs)
}

/// Configuration of the HTTP IPC server.
#[derive(Debug, Clone, Copy)]
pub struct ServerConfig {
    /// Maximum number of concurrent connections.
    pub max_connections: usize,
    /// Timeout for reading the next request.
    pub read_timeout: std::time::Duration,
    /// Timeout for a handler to complete.
    pub write_timeout: std::time::Duration,
    /// Maximum request size in bytes.
    pub max_request_size: usize,
    /// Maximum size of the header block in bytes.
    pub max_header_size: usize,
    /// Whether requests and responses are logged.
    pub enable_logging: bool,
    /// Maximum number of requests served on one connection.
    pub max_requests_per_connection: usize,
    /// How long shutdown waits for active connections.
    pub shutdown_timeout: std::time::Duration,
}

impl ServerConfig {
    /// The default configuration: 200 connections, 15 s read timeout, 10 s
    /// handler timeout, 10 MiB requests, 16 KiB headers, logging on, 64
    /// requests per connection, 3 s shutdown timeout.
    pub fn default_config() -> (r: ServerConfig)
        ensures
            r.max_connections == 200,
            r.max_request_size == 10 * 1024 * 1024,
            r.max_header_size == 16 * 1024,
            r.enable_logging,
            r.max_requests_per_connection == 64,
            r.read_timeout == secs_duration(15),
            r.write_timeout == secs_duration(10),
            r.shutdown_timeout == secs_duration(3),
    {
        ServerConfig {
            max_connections: 200,
            read_timeout: duration_from_secs(15),
            write_timeout: duration_from_secs(10),
            max_request_size: 10 * 1024 * 1024,
            max_header_size: 16 * 1024,
            enable_logging: true,
            max_requests_per_connection: 64,
            shutdown_timeout: duration_from_secs(3),
        }
    }
}

/// Server statistics.
#[derive(Debug, Clone, Copy)]
pub struct ServerStats {
    /// Total number of connections accepted.
    pub total_connections: u64,
    /// Connections currently open.
    pub active_connections: u64,
    /// Total requests processed.
    pub total_requests: u64,
    /// Total responses sent.
    pub total_responses: u64,
    /// Total errors encountered.
    pub total_errors: u64,
    /// When the server started.
    pub started_at: std::time::Instant,
}


impl ServerStats {
    /// Open connections never outnumber accepted ones.
    pub open spec fn consistent(&self) -> bool {
        self.active_connections <= self.total_connections
    }

    /// All counters at zero, started now.
    pub fn new() -> (r: ServerStats)
        ensures
            r.total_connections == 0,
            r.active_connections == 0,
            r.total_requests == 0,
            r.total_responses == 0,
            r.total_errors == 0,
            r.consistent(),
    {
        ServerStats {
            total_connections: 0,
            active_connections: 0,
            total_requests: 0,
            total_responses: 0,
            total_errors: 0,
            started_at: now(),
        }
    }

    /// Records an accepted connection; returns its connection ID (the number
    /// of connections accepted so far).
    pub fn connection_accepted(&mut self) -> (id: u64)
        requires
            old(self).total_connections < u64::MAX,
            old(self).active_connections < u64::MAX,
        ensures
            *final(self) == after_accept(*old(self)),
            id == final(self).total_connections,
    {
        self.total_connections = self.total_connections + 1;
        self.active_connections = self.active_connections + 1;
        self.total_connections
    }

    /// Records a finished connection (the open count never drops below zero).
    pub fn connection_finished(&mut self)
        ensures
            *final(self) == after_finish(*old(self)),
    {
        self.active_connections = self.active_connections.saturating_sub(1);
    }

    /// Records a parsed request.
    pub fn request_received(&mut self)
        requires
            old(self).total_requests < u64::MAX,
        ensures
            *final(self) == after_request(*old(self)),
    {
        self.total_requests = self.total_requests + 1;
    }

    /// Records a response written.
    pub fn response_sent(&mut self)
        requires
            old(self).total_responses < u64::MAX,
        ensures
            *final(self) == after_response(*old(self)),
    {
        self.total_responses = self.total_responses + 1;
    }

    /// Records an error.
    pub fn error_recorded(&mut self)
        requires
            old(self).total_errors < u64::MAX,
        ensures
            *final(self) == after_error(*old(self)),
    {
        self.total_errors = self.total_errors + 1;
    }
}

/// The statistics after a connection is accepted.
pub open spec fn after_accept(s: ServerStats) -> ServerStats {
    ServerStats {
        total_connections: (s.total_connections + 1) as u64,
        active_connections: (s.active_connections + 1) as u64,
        ..s
    }
}

/// The statistics after a connection finishes.
pub open spec fn after_finish(s: ServerStats) -> ServerStats {
    ServerStats {
        active_connections: if s.active_connections > 0 {
            (s.active_connections - 1) as u64
        } else {
            0u64
        },
        ..s
    }
}

/// The statistics after a request is parsed.
pub open spec fn after_request(s: ServerStats) -> ServerStats {
    ServerStats { total_requests: (s.total_requests + 1) as u64, ..s }
}

/// The statistics after a response is written.
pub open spec fn after_response(s: ServerStats) -> ServerStats {
    ServerStats { total_responses: (s.total_responses + 1) as u64, ..s }
}

/// The statistics after an error.
pub open spec fn after_error(s: ServerStats) -> ServerStats {
    ServerStats { total_errors: (s.total_errors + 1) as u64, ..s }
}

/// The statistics after `accepted` accepts followed by `finished` finishes.
pub open spec fn after_events(s: ServerStats, accepted: nat, finished: nat) -> ServerStats
    decreases accepted + finished,
{
    if finished > 0 {
        after_finish(after_events(s, accepted, (finished - 1) as nat))
    } else if accepted > 0 {
        after_accept(after_events(s, (accepted - 1) as nat, 0))
    } else {
        s
    }
}

/// Accepting and finishing connections keeps the open count at most the
/// accepted count; from fresh statistics, `a` accepts then `f <= a` finishes
/// leave `a` accepted and `a - f` open.
pub proof fn law_connection_counts(s: ServerStats, a: nat, f: nat)
    requires
        s.consistent(),
        s.total_connections + a <= u64::MAX,
    ensures
        after_events(s, a, f).consistent(),
        after_events(s, a, f).total_connections == s.total_connections + a,
        f <= s.active_connections + a ==> after_events(s, a, f).active_connections
            == s.active_connections + a - f,
    decreases a + f,
{
    if f > 0 {
        law_connection_counts(s, a, (f - 1) as nat);
    } else if a > 0 {
        law_connection_counts(s, (a - 1) as nat, 0);
    }
}

impl ServerStats {
    /// Admits a new connection when fewer than `max_connections` are open:
    /// it is counted and gets the next connection ID. Otherwise the
    /// connection is turned away and nothing changes.
    pub fn try_admit(&mut self, max_connections: usize) -> (id: Option<u64>)
        requires
            old(self).consistent(),
            old(self).total_connections < u64::MAX,
        ensures
            *final(self) == after_admission(*old(self), max_connections as nat),
            final(self).consistent(),
            match id {
                Some(n) => old(self).active_connections < max_connections && n
                    == final(self).total_connections,
                None => old(self).active_connections >= max_connections,
            },
    {
        if (self.active_connections as u128) < (max_connections as u128) {
            Some(self.connection_accepted())
        } else {
            None
        }
    }

    /// Records what happened to one request on a connection; returns
    /// whether the connection stays open. A request that does not parse
    /// counts an error (the 400 answer is not a response to a request) and
    /// the connection goes on; a parsed request counts a request; a written
    /// response counts a response; a failed write counts an error and ends
    /// the connection.
    pub fn record(&mut self, event: ServeEvent) -> (keep_open: bool)
        requires
            event_fits(*old(self), event),
        ensures
            *final(self) == after_serve_event(*old(self), event),
            keep_open == !(event is WriteFailed),
    {
        match event {
            ServeEvent::Rejected => {
                self.error_recorded();
                true
            },
            ServeEvent::Parsed => {
                self.request_received();
                true
            },
            ServeEvent::Written => {
                self.response_sent();
                true
            },
            ServeEvent::WriteFailed => {
                self.error_recorded();
                false
            },
        }
    }
}

/// The statistics after a connection asks to be admitted while at most
/// `max` may be open.
pub open spec fn after_admission(s: ServerStats, max: nat) -> ServerStats {
    if s.active_connections < max {
        after_accept(s)
    } else {
        s
    }
}

/// What happened to one request on a connection.
#[derive(Clone, Copy, PartialEq, Eq, Structural)]
pub enum ServeEvent {
    /// The request bytes did not parse; a `400` was written.
    Rejected,
    /// The request parsed and was dispatched.
    Parsed,
    /// The response to a parsed request was written.
    Written,
    /// Writing the response to a parsed request failed.
    WriteFailed,
}

/// The counter an event raises has room.
pub open spec fn event_fits(s: ServerStats, e: ServeEvent) -> bool {
    match e {
        ServeEvent::Rejected | ServeEvent::WriteFailed => s.total_errors < u64::MAX,
        ServeEvent::Parsed => s.total_requests < u64::MAX,
        ServeEvent::Written => s.total_responses < u64::MAX,
    }
}

/// The statistics after an event.
pub open spec fn after_serve_event(s: ServerStats, e: ServeEvent) -> ServerStats {
    match e {
        ServeEvent::Rejected | ServeEvent::WriteFailed => after_error(s),
        ServeEvent::Parsed => after_request(s),
        ServeEvent::Written => after_response(s),
    }
}

/// Something that changes the server statistics: a connection asks to be
/// admitted, an admitted connection finishes, or something happens to a
/// request on a connection.
pub enum StatsEvent {
    /// A new connection asks to be admitted.
    Arrive,
    /// An admitted connection finishes.
    Leave,
    /// A request event on some connection.
    Serve(ServeEvent),
}

/// The statistics after an event, at most `max` connections open.
pub open spec fn after_stats_event(s: ServerStats, max: nat, e: StatsEvent) -> ServerStats {
    match e {
        StatsEvent::Arrive => after_admission(s, max),
        StatsEvent::Leave => after_finish(s),
        StatsEvent::Serve(se) => after_serve_event(s, se),
    }
}

/// The statistics after a run of events.
pub open spec fn after_stats_events(s: ServerStats, max: nat, evs: Seq<StatsEvent>) -> ServerStats
    decreases evs.len(),
{
    if evs.len() == 0 {
        s
    } else {
        after_stats_event(after_stats_events(s, max, evs.drop_last()), max, evs.last())
    }
}

/// How many events of `evs` are the request event `e`.
pub open spec fn count_serve(evs: Seq<StatsEvent>, e: ServeEvent) -> nat
    decreases evs.len(),
{
    if evs.len() == 0 {
        0
    } else {
        count_serve(evs.drop_last(), e) + if evs.last() == StatsEvent::Serve(e) {
            1nat
        } else {
            0nat
        }
    }
}

/// Every response written answers a parsed request: no prefix of `evs`
/// holds more `Written` than `Parsed` events. The connection loop makes
/// sure of this, whatever the interleaving of connections.
pub open spec fn responses_follow_requests(evs: Seq<StatsEvent>) -> bool {
    forall|i: int|
        0 <= i <= evs.len() ==> count_serve(#[trigger] evs.take(i), ServeEvent::Written) <= count_serve(
            evs.take(i),
            ServeEvent::Parsed,
        )
}

/// The bounds the statistics keep: no more open connections than accepted
/// ones or than `max`, and no more responses than requests.
pub open spec fn stats_bounds(s: ServerStats, max: nat) -> bool {
    &&& s.active_connections <= s.total_connections
    &&& s.active_connections <= max
    &&& s.total_responses <= s.total_requests
}

/// No counter but the open-connection count ever goes down from `a` to `b`.
pub open spec fn counters_grow(a: ServerStats, b: ServerStats) -> bool {
    &&& a.total_connections <= b.total_connections
    &&& a.total_requests <= b.total_requests
    &&& a.total_responses <= b.total_responses
    &&& a.total_errors <= b.total_errors
}

/// The counters stay below their limits for `n` more events.
pub open spec fn room_for(s: ServerStats, n: nat) -> bool {
    &&& s.total_connections + n <= u64::MAX
    &&& s.total_requests + n <= u64::MAX
    &&& s.total_responses + n <= u64::MAX
    &&& s.total_errors + n <= u64::MAX
}

/// The server statistics, as the serving loop keeps them: from any
/// statistics within the bounds, however connections arrive and leave and
/// however their request events interleave (each response answering a
/// parsed request), the statistics observed at any point are within the
/// bounds: at most `max_connections` open, never more open than accepted,
/// never more responses than requests. And between any two points no
/// counter but the open-connection count goes down.
pub proof fn law_server_stats(s: ServerStats, max_connections: nat, evs: Seq<StatsEvent>)
    requires
        stats_bounds(s, max_connections),
        room_for(s, evs.len()),
        responses_follow_requests(evs),
    ensures
        forall|i: int|
            0 <= i <= evs.len() ==> stats_bounds(
                #[trigger] after_stats_events(s, max_connections, evs.take(i)),
                max_connections,
            ),
        forall|i: int, j: int|
            0 <= j <= i <= evs.len() ==> counters_grow(
                #[trigger] after_stats_events(s, max_connections, evs.take(j)),
                #[trigger] after_stats_events(s, max_connections, evs.take(i)),
            ),
{
    assert forall|i: int| 0 <= i <= evs.len() implies stats_bounds(
        #[trigger] after_stats_events(s, max_connections, evs.take(i)),
        max_connections,
    ) by {
        let p = evs.take(i);
        lemma_stats_counts(s, max_connections, p);
        assert(p.take(i) =~= p);
    }
    assert forall|i: int, j: int| 0 <= j <= i <= evs.len() implies counters_grow(
        #[trigger] after_stats_events(s, max_connections, evs.take(j)),
        #[trigger] after_stats_events(s, max_connections, evs.take(i)),
    ) by {
        let p = evs.take(i);
        lemma_stats_grow(s, max_connections, p, j);
        assert(p.take(j) =~= evs.take(j));
    }
}

/// The counters after a run of events, by counting, and the connection
/// bounds along the way.
pub proof fn lemma_stats_counts(s: ServerStats, max: nat, evs: Seq<StatsEvent>)
    requires
        s.active_connections <= s.total_connections,
        s.active_connections <= max,
        room_for(s, evs.len()),
    ensures
        ({
            let t = after_stats_events(s, max, evs);
            &&& t.total_requests == s.total_requests + count_serve(evs, ServeEvent::Parsed)
            &&& t.total_responses == s.total_responses + count_serve(evs, ServeEvent::Written)
            &&& t.total_errors == s.total_errors + count_serve(evs, ServeEvent::Rejected) + count_serve(
                evs,
                ServeEvent::WriteFailed,
            )
            &&& s.total_connections <= t.total_connections <= s.total_connections + evs.len()
            &&& t.active_connections <= t.total_connections
            &&& t.active_connections <= max
        }),
        count_serve(evs, ServeEvent::Parsed) <= evs.len(),
        count_serve(evs, ServeEvent::Written) <= evs.len(),
        count_serve(evs, ServeEvent::Rejected) + count_serve(evs, ServeEvent::WriteFailed) <= evs.len(),
    decreases evs.len(),
{
    if evs.len() > 0 {
        lemma_stats_counts(s, max, evs.drop_last());
    }
}

/// The counters only grow along a run of events: from the point after `j`
/// events to the end.
pub proof fn lemma_stats_grow(s: ServerStats, max: nat, evs: Seq<StatsEvent>, j: int)
    requires
        0 <= j <= evs.len(),
        s.active_connections <= s.total_connections,
        s.active_connections <= max,
        room_for(s, evs.len()),
    ensures
        counters_grow(after_stats_events(s, max, evs.take(j)), after_stats_events(s, max, evs)),
    decreases evs.len(),
{
    assert(evs.take(evs.len() as int) =~= evs);
    if j < evs.len() {
        let q = evs.drop_last();
        lemma_stats_grow(s, max, q, j);
        assert(q.take(j) =~= evs.take(j));
        lemma_stats_counts(s, max, q);
    }
}

/// The connection IDs handed out along a run of events, in order: each
/// admitted connection gets the accepted count after its admission.
pub open spec fn admitted_ids(s: ServerStats, max: nat, evs: Seq<StatsEvent>) -> Seq<u64>
    decreases evs.len(),
{
    if evs.len() == 0 {
        Seq::empty()
    } else {
        let prev = after_stats_events(s, max, evs.drop_last());
        let ids = admitted_ids(s, max, evs.drop_last());
        if evs.last() == StatsEvent::Arrive && prev.active_connections < max {
            ids.push(after_admission(prev, max).total_connections)
        } else {
            ids
        }
    }
}

/// Connection IDs follow the order of admission: the `k`-th admitted
/// connection (from 0) gets the accepted count before the run plus `k + 1`
/// (so from fresh statistics the IDs are 1, 2, 3, ...), IDs are distinct
/// and increasing, and a connection turned away takes none.
pub proof fn law_connection_ids(s: ServerStats, max_connections: nat, evs: Seq<StatsEvent>)
    requires
        s.active_connections <= s.total_connections,
        s.active_connections <= max_connections,
        room_for(s, evs.len()),
    ensures
        ({
            let ids = admitted_ids(s, max_connections, evs);
            &&& after_stats_events(s, max_connections, evs).total_connections == s.total_connections
                + ids.len()
            &&& forall|k: int| 0 <= k < ids.len() ==> #[trigger] ids[k] == s.total_connections + k + 1
            &&& forall|a: int, b: int| 0 <= a < b < ids.len() ==> #[trigger] ids[a] < #[trigger] ids[b]
        }),
    decreases evs.len(),
{
    if evs.len() > 0 {
        law_connection_ids(s, max_connections, evs.drop_last());
        lemma_stats_counts(s, max_connections, evs.drop_last());
    }
}

/// What became of a handler call.
pub enum HandlerOutcome {
    /// The handler returned a response.
    Response(HttpResponse),
    /// The handler returned an error.
    Failed,
    /// The handler did not finish within the handler timeout.
    TimedOut,
    /// No route matched the request's method and path.
    NoRoute,
}

/// The response sent for a handler outcome: the handler's own response; `404
/// Not Found` when no route matched; `500
/// Internal Server Error` for a handler error; `408` with the text `Handler
/// timeout` for a timeout.
pub fn response_for_outcome(outcome: HandlerOutcome) -> (r: HttpResponse)
    ensures
        match outcome {
            HandlerOutcome::Response(resp) => r == resp,
            HandlerOutcome::Failed => r.status@ == 500 && r.body@ == encode_utf8(
                "Internal Server Error"@,
            ) && r.headers@ == with_header(
                Seq::empty(),
                "content-type"@,
                "text/plain; charset=utf-8"@,
            ),
            HandlerOutcome::TimedOut => r.status@ == 408 && r.body@ == encode_utf8(
                "Handler timeout"@,
            ) && r.headers@ == with_header(
                Seq::empty(),
                "content-type"@,
                "text/plain; charset=utf-8"@,
            ),
            HandlerOutcome::NoRoute => r.status@ == 404 && r.body@ == encode_utf8("Not Found"@)
                && r.headers@ == with_header(
                Seq::empty(),
                "content-type"@,
                "text/plain; charset=utf-8"@,
            ),
        },
        r.status.wf() || outcome is Response,
        r.headers.wf() || outcome is Response,
{
    match outcome {
        HandlerOutcome::Response(resp) => resp,
        HandlerOutcome::Failed => HttpResponse::internal_error(),
        HandlerOutcome::TimedOut => HttpResponse::error(StatusCode::request_timeout(), "Handler timeout"),
        HandlerOutcome::NoRoute => HttpResponse::not_found(),
    }
}

/// The response sent for a request that does not parse: `400 Bad Request`.
pub fn bad_request_response() -> (r: HttpResponse)
    ensures
        r.status@ == 400,
        r.status.wf(),
        r.headers.wf(),
        r.body@ == encode_utf8("Bad Request"@),
        r.headers@ == with_header(Seq::empty(), "content-type"@, "text/plain; charset=utf-8"@),
{
    HttpResponse::error(StatusCode::bad_request(), "Bad Request")
}

/// What reading the next request on a connection produced.
pub enum ReadOutcome {
    /// The bytes of a request.
    Request(Vec<u8>),
    /// The client closed the connection before sending anything.
    Closed,
    /// The read failed.
    Failed(KodeBridgeError),
    /// No request arrived within the read timeout.
    TimedOut,
}

/// What a connection does after a read.
pub enum ConnectionStep {
    /// Route the request and call its handler, then write the response.
    Dispatch(RequestContext),
    /// Write this response, count an error, and read the next request.
    Reject(HttpResponse),
    /// End the connection with this result.
    Stop(Result<(), KodeBridgeError>),
}

/// The connection's decision after a read: a request that parses is
/// dispatched; one that does not is answered `400 Bad Request`; a closed
/// connection ends normally; a failed read ends with its error; a read that
/// timed out ends with a timeout error.
pub fn on_read(outcome: ReadOutcome, info: &ClientInfo, config: &ServerConfig) -> (r: ConnectionStep)
    ensures
        match outcome {
            ReadOutcome::Request(data) => match parse_request_spec(
                data@,
                config.max_request_size as nat,
                config.max_header_size as nat,
            ) {
                Some(p) => r matches ConnectionStep::Dispatch(ctx) && context_of(ctx, p, *info),
                None => r matches ConnectionStep::Reject(resp) && resp.status@ == 400 && resp.status.wf()
                    && resp.headers.wf() && resp.body@ == encode_utf8("Bad Request"@) && resp.headers@
                    == with_header(Seq::empty(), "content-type"@, "text/plain; charset=utf-8"@),
            },
            ReadOutcome::Closed => r matches ConnectionStep::Stop(Ok(())),
            ReadOutcome::Failed(e) => r matches ConnectionStep::Stop(Err(e2)) && e2.kind == e.kind
                && e2.message@ == e.message@,
            ReadOutcome::TimedOut => r matches ConnectionStep::Stop(Err(e)) && e.kind == ErrorKind::Timeout
                && e.message@ == "Request read timeout"@,
        },
{
    match outcome {
        ReadOutcome::Request(data) => {
            match parse_request(data.as_slice(), info, config.max_request_size, config.max_header_size) {
                Ok(ctx) => ConnectionStep::Dispatch(ctx),
                Err(_) => ConnectionStep::Reject(bad_request_response()),
            }
        },
        ReadOutcome::Closed => ConnectionStep::Stop(Ok(())),
        ReadOutcome::Failed(e) => ConnectionStep::Stop(Err(e)),
        ReadOutcome::TimedOut => ConnectionStep::Stop(
            Err(KodeBridgeError::new(ErrorKind::Timeout, "Request read timeout")),
        ),
    }
}

/// Whether a connection that has served `served` requests may serve another.
pub fn may_serve_another(served: usize, config: &ServerConfig) -> (r: bool)
    ensures
        r == (served < config.max_requests_per_connection),
{
    served < config.max_requests_per_connection
}

} // verus!
