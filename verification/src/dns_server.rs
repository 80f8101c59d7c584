//! The proxy engine: its life cycle, its counters, its log of recent
//! queries, and what it decides for every datagram.
//!
//! The engine owns no socket. Whoever runs it receives the datagrams,
//! hands each to [`DnsServer::handle_datagram`] and does what the
//! [`Action`] says; after a query was forwarded it reports the outcome to
//! [`DnsServer::forward_finished`] and sends what comes back.
//!
//! A name from the wire is fully qualified and ends in a dot. The engine
//! cuts that dot off, looks the name up in the blocklist without it, and
//! logs it without it: rules are written as `example.com`. The blocklist
//! itself takes every name as it is written, so a rule that ends in a dot
//! matches no query.

use vstd::prelude::*;
use vstd::slice::slice_to_vec;

use crate::blocklist::BlockList;
use crate::clock::{now, Timestamp};
use crate::names::{blocked_in, lowercase_of, strip_root_dot, without_root_dot};
use crate::wire::{
    decode, decoded, encode, encoded, has_header, Question, QuestionView, ReplyCode, Request,
    RequestView, HEADER_LEN, MAX_DATAGRAM, OP_QUERY,
};

verus! {

/// The number of entries that the log of recent queries keeps.
pub const HISTORY_LIMIT: usize = 100;

/// The local port on which the proxy listens, on the loopback address.
pub const LISTEN_PORT: u16 = 5353;

/// The address of the upstream resolver.
pub const UPSTREAM_ADDR: [u8; 4] = [8, 8, 8, 8];

/// The port of the upstream resolver.
pub const UPSTREAM_PORT: u16 = 53;

/// The seconds that the upstream resolver is given to answer.
pub const UPSTREAM_TIMEOUT_SECS: u64 = 3;

/// The counters of the engine.
#[derive(Clone, Copy, Debug, PartialEq, Eq, Structural)]
pub struct DnsStats {
    /// The datagrams that carried a question and were answered or forwarded.
    pub total_queries: usize,
    /// Those among them that were blocked.
    pub blocked_queries: usize,
}

/// One entry of the log of recent queries.
#[derive(Debug)]
pub struct DnsQuery {
    /// The name that was asked for, without the root's trailing dot.
    pub domain: String,
    /// When the query was recorded.
    pub timestamp: Timestamp,
    /// Whether the name was blocked.
    pub blocked: bool,
}

/// An entry of the log as a value of the model.
pub struct LogEntry {
    pub domain: Seq<char>,
    pub timestamp: Timestamp,
    pub blocked: bool,
}

impl View for DnsQuery {
    type V = LogEntry;

    open spec fn view(&self) -> LogEntry {
        LogEntry { domain: self.domain@, timestamp: self.timestamp, blocked: self.blocked }
    }
}

impl Clone for DnsQuery {
    fn clone(&self) -> (copy: DnsQuery)
        ensures
            copy@ == self@,
    {
        DnsQuery { domain: self.domain.clone(), timestamp: self.timestamp, blocked: self.blocked }
    }
}

/// A snapshot of the counters together with the size of the blocklist.
#[derive(Clone, Copy, Debug, PartialEq, Eq, Structural)]
pub struct StatsResponse {
    pub total_queries: usize,
    pub blocked_queries: usize,
    pub blocklist_size: usize,
}

/// Where the engine stands in its life cycle.
#[derive(Clone, Copy, Debug, PartialEq, Eq, Structural)]
pub enum RunState {
    /// No listener, no loop.
    Stopped,
    /// A start was asked for and the listener is being bound.
    Starting,
    /// The loop receives and answers datagrams.
    Running,
    /// A stop was asked for and the loop is being cancelled.
    Stopping,
}

/// What happens to the engine from outside.
#[derive(Clone, Copy, Debug, PartialEq, Eq, Structural)]
pub enum Event {
    /// A caller asks for the engine to start.
    StartRequested,
    /// The listener was bound.
    ListenerBound,
    /// The listener could not be bound.
    BindFailed,
    /// A caller asks for the engine to stop.
    StopRequested,
    /// The loop has ended: it was cancelled, or receiving failed.
    LoopEnded,
}

/// What the runner of the engine has to do after an event.
#[derive(Clone, Copy, Debug, PartialEq, Eq, Structural)]
pub enum Command {
    /// Nothing.
    Nothing,
    /// Bind the listener and report `ListenerBound` or `BindFailed`.
    BindListener,
    /// Run the loop on the listener that was bound.
    RunLoop,
    /// Cancel the loop at once and report `LoopEnded`.
    AbortLoop,
}

/// The life cycle: the state after `event` and what is to be done. An event
/// that the state does not wait for changes nothing and asks for nothing.
pub open spec fn transition(state: RunState, event: Event) -> (RunState, Command) {
    match (state, event) {
        (RunState::Stopped, Event::StartRequested) => (RunState::Starting, Command::BindListener),
        (RunState::Starting, Event::ListenerBound) => (RunState::Running, Command::RunLoop),
        (RunState::Starting, Event::BindFailed) => (RunState::Stopped, Command::Nothing),
        (RunState::Running, Event::StopRequested) => (RunState::Stopping, Command::AbortLoop),
        (RunState::Running, Event::LoopEnded) => (RunState::Stopped, Command::Nothing),
        (RunState::Stopping, Event::LoopEnded) => (RunState::Stopped, Command::Nothing),
        _ => (state, Command::Nothing),
    }
}

/// The log after `entry` was appended: the oldest entry leaves where the
/// log is full.
pub open spec fn ring_push(log: Seq<LogEntry>, entry: LogEntry) -> Seq<LogEntry> {
    if log.len() >= HISTORY_LIMIT {
        log.skip(log.len() - HISTORY_LIMIT + 1).push(entry)
    } else {
        log.push(entry)
    }
}

/// The log after `entries` were appended one by one.
pub open spec fn ring_extend(log: Seq<LogEntry>, entries: Seq<LogEntry>) -> Seq<LogEntry>
    decreases entries.len(),
{
    if entries.len() == 0 {
        log
    } else {
        ring_push(ring_extend(log, entries.drop_last()), entries.last())
    }
}

/// The newest entries of `all`, as many as the log keeps, oldest first.
pub open spec fn newest(all: Seq<LogEntry>) -> Seq<LogEntry> {
    if all.len() > HISTORY_LIMIT {
        all.skip(all.len() - HISTORY_LIMIT)
    } else {
        all
    }
}

/// The entries of a log as values of the model.
pub open spec fn log_view(log: Seq<DnsQuery>) -> Seq<LogEntry> {
    log.map_values(|query: DnsQuery| query@)
}

/// The engine as a value of the model.
pub struct ServerView {
    pub state: RunState,
    pub blocklist: Set<Seq<char>>,
    pub total_queries: nat,
    pub blocked_queries: nat,
    pub history: Seq<LogEntry>,
}

impl ServerView {
    /// No more queries were blocked than were counted, and the log is
    /// within its limit.
    pub open spec fn valid(self) -> bool {
        &&& self.blocked_queries <= self.total_queries
        &&& self.history.len() <= HISTORY_LIMIT
    }

    /// The engine after a query for `domain` was counted and logged.
    pub open spec fn recorded(self, domain: Seq<char>, now: Timestamp, blocked: bool) -> ServerView {
        ServerView {
            total_queries: self.total_queries + 1,
            blocked_queries: if blocked {
                self.blocked_queries + 1
            } else {
                self.blocked_queries
            },
            history: ring_push(self.history, LogEntry { domain, timestamp: now, blocked }),
            ..self
        }
    }
}

/// A query that was handed on to the upstream resolver and waits for its
/// outcome.
#[derive(Debug)]
pub struct Pending {
    /// The transaction ID of the request.
    pub id: u16,
    /// The first question of the request.
    pub question: Question,
    /// The name that was asked for, without the root's trailing dot.
    pub domain: String,
    /// The request as it was received: the bytes to send upstream.
    pub payload: Vec<u8>,
}

/// A pending query as a value of the model.
pub struct PendingView {
    pub id: u16,
    pub question: QuestionView,
    pub domain: Seq<char>,
    pub payload: Seq<u8>,
}

impl View for Pending {
    type V = PendingView;

    open spec fn view(&self) -> PendingView {
        PendingView {
            id: self.id,
            question: self.question@,
            domain: self.domain@,
            payload: self.payload@,
        }
    }
}

/// What is to be done with a datagram.
#[derive(Debug)]
pub enum Action {
    /// Send nothing: the datagram is no DNS message or asks no question.
    Drop,
    /// Send `payload` back to where the datagram came from.
    Reply { payload: Vec<u8> },
    /// Send `pending.payload` to the upstream resolver, wait for the answer
    /// within the time limit, and report to `forward_finished`.
    Forward { pending: Pending },
}

/// An action as a value of the model.
pub enum ActionView {
    Drop,
    Reply { payload: Seq<u8> },
    Forward { pending: PendingView },
}

impl View for Action {
    type V = ActionView;

    open spec fn view(&self) -> ActionView {
        match self {
            Action::Drop => ActionView::Drop,
            Action::Reply { payload } => ActionView::Reply { payload: payload@ },
            Action::Forward { pending } => ActionView::Forward { pending: pending@ },
        }
    }
}

/// The bytes of the proxy's own reply to the request `id` with the one
/// question: a response to a standard query, not authoritative, with the
/// given code. Where the encoder gives no bytes the reply is empty.
pub open spec fn reply_bytes(id: u16, code: ReplyCode, question: Seq<u8>) -> Seq<u8> {
    match encoded(id, true, OP_QUERY, false, code.number(), question) {
        Some(bytes) => bytes,
        None => Seq::empty(),
    }
}

/// `payload` is empty, or it starts with the header of a reply of the
/// proxy's own to the request `id`: a response to a standard query, not
/// authoritative, with the given code, one question and no records.
pub open spec fn is_own_reply(payload: Seq<u8>, id: u16, code: ReplyCode) -> bool {
    payload.len() == 0 || has_header(payload, id, true, OP_QUERY, false, code.number())
}

/// What handling a datagram comes to, given the request that it decodes to
/// and the time.
///
/// A datagram whose header or questions do not decode, or which has no
/// question, is dropped and leaves no trace. Else the first question
/// decides; the records that may follow the questions are not looked at.
/// Where the name of the question is blocked the answer is a reply "name
/// does not exist", and the query is counted and logged as blocked. Where
/// it is not, the datagram is to be forwarded as it came, and nothing is
/// counted yet.
pub open spec fn datagram_handled(
    before: ServerView,
    request: Option<RequestView>,
    data: Seq<u8>,
    now: Timestamp,
    after: ServerView,
    action: ActionView,
) -> bool {
    match request {
        Some(request) if request.questions.len() > 0 => {
            let question = request.questions[0];
            let domain = without_root_dot(question.name);
            if blocked_in(before.blocklist, lowercase_of(domain)) {
                &&& after == before.recorded(domain, now, true)
                &&& action matches ActionView::Reply { payload }
                &&& payload == reply_bytes(request.id, ReplyCode::NxDomain, question.wire)
                &&& is_own_reply(payload, request.id, ReplyCode::NxDomain)
            } else {
                &&& after == before
                &&& action == (ActionView::Forward {
                    pending: PendingView { id: request.id, question, domain, payload: data },
                })
            }
        },
        _ => after == before && action is Drop,
    }
}

/// What the end of a forwarded query comes to. The upstream's answer goes
/// back as it came; without one the answer is a reply "server failure".
/// Either way the query is counted and logged as not blocked.
pub open spec fn forward_settled(
    before: ServerView,
    pending: PendingView,
    answer: Option<Seq<u8>>,
    now: Timestamp,
    after: ServerView,
    payload: Seq<u8>,
) -> bool {
    &&& after == before.recorded(pending.domain, now, false)
    &&& match answer {
        Some(bytes) => payload == bytes,
        None => {
            &&& payload == reply_bytes(pending.id, ReplyCode::ServFail, pending.question.wire)
            &&& is_own_reply(payload, pending.id, ReplyCode::ServFail)
        },
    }
}

/// What the proxy reads from a datagram: the request that it decodes to.
/// From a datagram of more than `MAX_DATAGRAM` bytes it reads nothing.
pub open spec fn request_in(data: Seq<u8>) -> Option<RequestView> {
    if data.len() <= MAX_DATAGRAM {
        decoded(data)
    } else {
        None
    }
}

/// The request that was decoded, if any, as a value of the model.
pub open spec fn request_view(request: Option<Request>) -> Option<RequestView> {
    match request {
        Some(request) => Some(request@),
        None => None,
    }
}

/// The answer of the upstream, if any, as a value of the model.
pub open spec fn answer_view(answer: Option<Vec<u8>>) -> Option<Seq<u8>> {
    match answer {
        Some(bytes) => Some(bytes@),
        None => None,
    }
}

/// The proxy engine.
pub struct DnsServer {
    state: RunState,
    blocklist: BlockList,
    stats: DnsStats,
    recent_queries: Vec<DnsQuery>,
}

impl View for DnsServer {
    type V = ServerView;

    closed spec fn view(&self) -> ServerView {
        ServerView {
            state: self.state,
            blocklist: self.blocklist@,
            total_queries: self.stats.total_queries as nat,
            blocked_queries: self.stats.blocked_queries as nat,
            history: log_view(self.recent_queries@),
        }
    }
}

/// The reply of the proxy's own to a request: a response to a standard
/// query that copies the ID and the question and carries `code`.
pub fn own_reply(id: u16, question: &Question, code: ReplyCode) -> (payload: Vec<u8>)
    ensures
        payload@ == reply_bytes(id, code, question.wire@),
        is_own_reply(payload@, id, code),
{
    match encode(id, true, OP_QUERY, false, code.to_number(), question.wire.as_slice()) {
        Some(bytes) => bytes,
        None => Vec::new(),
    }
}

impl DnsServer {
    /// The blocklist keeps its own invariant.
    pub closed spec fn blocklist_wf(&self) -> bool {
        self.blocklist.wf()
    }

    /// The invariant of the engine.
    pub open spec fn wf(&self) -> bool {
        self.blocklist_wf() && self@.valid()
    }

    /// A stopped engine with an empty blocklist, counters at zero and an
    /// empty log.
    pub fn new() -> (server: DnsServer)
        ensures
            server.wf(),
            server@ == (ServerView {
                state: RunState::Stopped,
                blocklist: Set::<Seq<char>>::empty(),
                total_queries: 0,
                blocked_queries: 0,
                history: Seq::<LogEntry>::empty(),
            }),
    {
        let server = DnsServer {
            state: RunState::Stopped,
            blocklist: BlockList::new(),
            stats: DnsStats { total_queries: 0, blocked_queries: 0 },
            recent_queries: Vec::new(),
        };
        assert(server@.history =~= Seq::<LogEntry>::empty());
        server
    }

    /// Takes the engine through one step of its life cycle.
    pub fn on_event(&mut self, event: Event) -> (command: Command)
        ensures
            final(self)@ == (ServerView { state: transition(old(self)@.state, event).0, ..old(self)@ }),
            command == transition(old(self)@.state, event).1,
            old(self).wf() ==> final(self).wf(),
    {
        let (state, command) = match (self.state, event) {
            (RunState::Stopped, Event::StartRequested) => (RunState::Starting, Command::BindListener),
            (RunState::Starting, Event::ListenerBound) => (RunState::Running, Command::RunLoop),
            (RunState::Starting, Event::BindFailed) => (RunState::Stopped, Command::Nothing),
            (RunState::Running, Event::StopRequested) => (RunState::Stopping, Command::AbortLoop),
            (RunState::Running, Event::LoopEnded) => (RunState::Stopped, Command::Nothing),
            (RunState::Stopping, Event::LoopEnded) => (RunState::Stopped, Command::Nothing),
            (state, _) => (state, Command::Nothing),
        };
        self.state = state;
        command
    }

    /// Asks for the engine to start. From `Stopped` the listener is to be
    /// bound; in every other state nothing happens.
    pub fn start(&mut self) -> (command: Command)
        ensures
            final(self)@ == (ServerView {
                state: transition(old(self)@.state, Event::StartRequested).0,
                ..old(self)@
            }),
            command == transition(old(self)@.state, Event::StartRequested).1,
            old(self)@.state == RunState::Running ==> command == Command::Nothing,
            old(self)@.state == RunState::Running ==> final(self)@ == old(self)@,
            old(self).wf() ==> final(self).wf(),
    {
        self.on_event(Event::StartRequested)
    }

    /// Asks for the engine to stop. From `Running` the loop is to be
    /// cancelled; in every other state nothing happens.
    pub fn stop(&mut self) -> (command: Command)
        ensures
            final(self)@ == (ServerView {
                state: transition(old(self)@.state, Event::StopRequested).0,
                ..old(self)@
            }),
            command == transition(old(self)@.state, Event::StopRequested).1,
            old(self)@.state == RunState::Stopped ==> command == Command::Nothing,
            old(self)@.state == RunState::Stopped ==> final(self)@ == old(self)@,
            old(self).wf() ==> final(self).wf(),
    {
        self.on_event(Event::StopRequested)
    }

    /// Counts a query for `domain` and appends it to the log. Where the log
    /// is full its oldest entry leaves.
    pub fn record_query(&mut self, domain: String, now: Timestamp, blocked: bool)
        requires
            old(self).wf(),
            old(self)@.total_queries < usize::MAX,
        ensures
            final(self).wf(),
            final(self)@ == old(self)@.recorded(domain@, now, blocked),
    {
        let ghost before = self.recent_queries@;
        self.stats.total_queries = self.stats.total_queries + 1;
        if blocked {
            self.stats.blocked_queries = self.stats.blocked_queries + 1;
        }
        if self.recent_queries.len() >= HISTORY_LIMIT {
            self.recent_queries.remove(0);
        }
        let entry = DnsQuery { domain, timestamp: now, blocked };
        self.recent_queries.push(entry);
        assert(log_view(self.recent_queries@) =~= ring_push(log_view(before), entry@));
    }

    /// Decides what to do with the datagram `data`, which decoded to
    /// `request`, at the time `now`.
    pub fn handle_request(
        &mut self,
        request: Option<Request>,
        data: &[u8],
        now: Timestamp,
    ) -> (action: Action)
        requires
            old(self).wf(),
            old(self)@.total_queries < usize::MAX,
        ensures
            final(self).wf(),
            datagram_handled(old(self)@, request_view(request), data@, now, final(self)@, action@),
    {
        let Request { id, mut questions } = match request {
            Some(request) => request,
            None => {
                return Action::Drop;
            },
        };
        if questions.len() == 0 {
            return Action::Drop;
        }
        let question = questions.remove(0);
        assert(request_view(request)->0.questions[0] == question@);
        let domain = strip_root_dot(question.name.as_str()).to_owned();
        if self.blocklist.is_blocked(domain.as_str()) {
            let payload = own_reply(id, &question, ReplyCode::NxDomain);
            self.record_query(domain, now, true);
            Action::Reply { payload }
        } else {
            Action::Forward { pending: Pending { id, question, domain, payload: slice_to_vec(data) } }
        }
    }

    /// Decodes the datagram `data` and decides what to do with it: drop it,
    /// answer it, or forward it. Of the datagram the header and the
    /// questions are read; what stands behind them is left to the upstream
    /// resolver. A datagram of more than `MAX_DATAGRAM` bytes is dropped
    /// unread. The time of the log entry is read from the clock; where the
    /// clock gives none, the entry carries the start of 1970.
    pub fn handle_datagram(&mut self, data: &[u8]) -> (action: Action)
        requires
            old(self).wf(),
            old(self)@.total_queries < usize::MAX,
        ensures
            final(self).wf(),
            exists|now: Timestamp|
                datagram_handled(old(self)@, request_in(data@), data@, now, final(self)@, action@),
    {
        let request = if data.len() <= MAX_DATAGRAM {
            decode(data)
        } else {
            None
        };
        let now = now();
        self.handle_request(request, data, now)
    }

    /// Closes a forwarded query at the time `now`: `answer` holds what the
    /// upstream resolver sent, or nothing where it failed or took too long.
    /// Hands out the bytes to send back to the requester.
    pub fn forward_finished_at(
        &mut self,
        pending: Pending,
        answer: Option<Vec<u8>>,
        now: Timestamp,
    ) -> (payload: Vec<u8>)
        requires
            old(self).wf(),
            old(self)@.total_queries < usize::MAX,
        ensures
            final(self).wf(),
            forward_settled(old(self)@, pending@, answer_view(answer), now, final(self)@, payload@),
    {
        let payload = match answer {
            Some(bytes) => bytes,
            None => own_reply(pending.id, &pending.question, ReplyCode::ServFail),
        };
        self.record_query(pending.domain, now, false);
        payload
    }

    /// Closes a forwarded query, with the time read from the clock. Where
    /// the clock gives none, the log entry carries the start of 1970.
    pub fn forward_finished(&mut self, pending: Pending, answer: Option<Vec<u8>>) -> (payload: Vec<u8>)
        requires
            old(self).wf(),
            old(self)@.total_queries < usize::MAX,
        ensures
            final(self).wf(),
            exists|now: Timestamp|
                forward_settled(
                    old(self)@,
                    pending@,
                    answer_view(answer),
                    now,
                    final(self)@,
                    payload@,
                ),
    {
        let now = now();
        self.forward_finished_at(pending, answer, now)
    }

    /// The counters together with the size of the blocklist, read in one
    /// piece.
    pub fn stats(&self) -> (stats: StatsResponse)
        requires
            self.wf(),
        ensures
            stats.total_queries == self@.total_queries,
            stats.blocked_queries == self@.blocked_queries,
            stats.blocklist_size == self@.blocklist.len(),
    {
        StatsResponse {
            total_queries: self.stats.total_queries,
            blocked_queries: self.stats.blocked_queries,
            blocklist_size: self.blocklist.count(),
        }
    }

    /// The counters.
    pub fn get_stats(&self) -> (stats: &DnsStats)
        ensures
            stats.total_queries == self@.total_queries,
            stats.blocked_queries == self@.blocked_queries,
    {
        &self.stats
    }

    /// The blocklist, to read.
    pub fn get_blocklist(&self) -> (list: &BlockList)
        ensures
            list@ == self@.blocklist,
            self.wf() ==> list.wf(),
    {
        &self.blocklist
    }

    /// The blocklist, to change.
    pub fn get_blocklist_mut(&mut self) -> (list: &mut BlockList)
        ensures
            list@ == old(self)@.blocklist,
            list.wf() == old(self).blocklist_wf(),
            final(self)@ == (ServerView { blocklist: final(list)@, ..old(self)@ }),
            final(self).blocklist_wf() == final(list).wf(),
    {
        &mut self.blocklist
    }

    /// The log of recent queries, oldest first.
    pub fn get_recent_queries(&self) -> (log: &Vec<DnsQuery>)
        ensures
            log_view(log@) == self@.history,
    {
        &self.recent_queries
    }

    /// A copy of the log of recent queries, oldest first.
    pub fn recent_queries(&self) -> (log: Vec<DnsQuery>)
        ensures
            log_view(log@) == self@.history,
    {
        let mut log: Vec<DnsQuery> = Vec::new();
        let mut i: usize = 0;
        while i < self.recent_queries.len()
            invariant
                0 <= i <= self.recent_queries@.len(),
                log@.len() == i,
                forall|j: int| 0 <= j < i ==> #[trigger] log@[j]@ == self.recent_queries@[j]@,
            decreases self.recent_queries@.len() - i,
        {
            log.push(self.recent_queries[i].clone());
            i += 1;
        }
        assert(log_view(log@) =~= log_view(self.recent_queries@));
        log
    }

    /// Whether the loop is active.
    pub fn is_running(&self) -> (running: bool)
        ensures
            running == (self@.state == RunState::Running),
    {
        self.state == RunState::Running
    }
}

/// The log never grows beyond its limit, and it holds the newest entries
/// in the order in which they came: whatever was appended, what is left is
/// the end of all that ever stood in the log.
pub proof fn law_log_keeps_newest(log: Seq<LogEntry>, entries: Seq<LogEntry>)
    requires
        log.len() <= HISTORY_LIMIT,
    ensures
        ring_extend(log, entries).len() <= HISTORY_LIMIT,
        ring_extend(log, entries) == newest(log + entries),
    decreases entries.len(),
{
    if entries.len() == 0 {
        assert(log + entries =~= log);
    } else {
        let earlier = entries.drop_last();
        law_log_keeps_newest(log, earlier);
        assert((log + earlier).push(entries.last()) =~= log + entries);
        assert(ring_extend(log, entries) =~= newest(log + entries));
    }
}

/// Counting a query keeps the counters in order, blocked queries never
/// above all queries, and the log within its limit.
pub proof fn law_recording_keeps_valid(before: ServerView, domain: Seq<char>, now: Timestamp, blocked: bool)
    requires
        before.valid(),
    ensures
        before.recorded(domain, now, blocked).valid(),
        before.recorded(domain, now, blocked).blocked_queries <= before.recorded(
            domain,
            now,
            blocked,
        ).total_queries,
        before.recorded(domain, now, blocked).history.len() <= HISTORY_LIMIT,
{
}

/// Handling a datagram keeps the counters in order and the log within its
/// limit, whatever the datagram holds.
pub proof fn law_datagram_keeps_valid(
    before: ServerView,
    request: Option<RequestView>,
    data: Seq<u8>,
    now: Timestamp,
    after: ServerView,
    action: ActionView,
)
    requires
        before.valid(),
        datagram_handled(before, request, data, now, after, action),
    ensures
        after.valid(),
{
}

/// Closing a forwarded query keeps the counters in order and the log within
/// its limit, whatever the upstream did.
pub proof fn law_forward_keeps_valid(
    before: ServerView,
    pending: PendingView,
    answer: Option<Seq<u8>>,
    now: Timestamp,
    after: ServerView,
    payload: Seq<u8>,
)
    requires
        before.valid(),
        forward_settled(before, pending, answer, now, after, payload),
    ensures
        after.valid(),
{
}

/// What a reply of the proxy's own says on the wire, where it is not empty:
/// the first two bytes are the ID of the request, the third holds the
/// response flag alone (so the op code is that of a query), the fourth is
/// the response code, and the counts say one question and no records.
pub proof fn law_own_reply_on_the_wire(payload: Seq<u8>, id: u16, code: ReplyCode)
    requires
        is_own_reply(payload, id, code),
        payload.len() > 0,
    ensures
        payload.len() >= HEADER_LEN,
        payload[0] * 256 + payload[1] == id,
        payload[2] == 128,
        payload[3] == code.number(),
        code == ReplyCode::NxDomain ==> payload[3] == 3,
        code == ReplyCode::ServFail ==> payload[3] == 2,
        payload[4] == 0 && payload[5] == 1,
        forall|i: int| 6 <= i < HEADER_LEN ==> payload[i] == 0,
{
    let header = payload.subrange(0, HEADER_LEN as int);
    assert forall|i: int| 0 <= i < HEADER_LEN implies header[i] == payload[i] by {}
    assert(header[0] == payload[0]);
    assert(header[1] == payload[1]);
    assert(header[2] == payload[2]);
    assert(header[3] == payload[3]);
    assert(header[4] == payload[4]);
    assert(header[5] == payload[5]);
}

/// Appending to the log puts the entry last. A log below its limit grows by
/// the entry; a full log loses its oldest entry and keeps its length.
pub proof fn law_log_grows_or_drops_oldest(log: Seq<LogEntry>, entry: LogEntry)
    requires
        log.len() <= HISTORY_LIMIT,
    ensures
        ring_push(log, entry).last() == entry,
        log.len() < HISTORY_LIMIT ==> ring_push(log, entry) == log.push(entry),
        log.len() == HISTORY_LIMIT ==> ring_push(log, entry) == log.skip(1).push(entry),
        log.len() == HISTORY_LIMIT ==> ring_push(log, entry).len() == HISTORY_LIMIT,
{
}

/// A query for a blocked name is answered and not forwarded. The answer is
/// the proxy's reply "name does not exist" under the ID of the request and
/// with its first question. The query is counted as blocked, and the newest
/// log entry holds the asked name and says that it was blocked; the log
/// grew by that entry, or lost its oldest one for it.
pub proof fn law_blocked_query_is_refused(
    before: ServerView,
    request: RequestView,
    data: Seq<u8>,
    now: Timestamp,
    after: ServerView,
    action: ActionView,
)
    requires
        before.valid(),
        datagram_handled(before, Some(request), data, now, after, action),
        request.questions.len() > 0,
    ensures
        blocked_in(before.blocklist, lowercase_of(without_root_dot(request.questions[0].name))) ==> {
            &&& action matches ActionView::Reply { payload }
            &&& payload == reply_bytes(request.id, ReplyCode::NxDomain, request.questions[0].wire)
            &&& is_own_reply(payload, request.id, ReplyCode::NxDomain)
            &&& after.history == ring_push(
                before.history,
                LogEntry {
                    domain: without_root_dot(request.questions[0].name),
                    timestamp: now,
                    blocked: true,
                },
            )
            &&& after.history.len() > 0
            &&& after.history.last().blocked
            &&& after.history.last().domain == without_root_dot(request.questions[0].name)
            &&& after.history.len() == if before.history.len() < HISTORY_LIMIT {
                before.history.len() + 1
            } else {
                HISTORY_LIMIT as nat
            }
            &&& after.blocked_queries == before.blocked_queries + 1
            &&& after.total_queries == before.total_queries + 1
            &&& after.blocklist == before.blocklist
            &&& after.state == before.state
        },
{
    law_log_grows_or_drops_oldest(
        before.history,
        LogEntry {
            domain: without_root_dot(request.questions[0].name),
            timestamp: now,
            blocked: true,
        },
    );
}

/// A query for a name that is not blocked is handed on as it came, and
/// nothing is answered or counted yet. When the upstream answers, the
/// answer goes back byte for byte; when it does not, the requester gets the
/// proxy's reply "server failure" under the ID of the request and with its
/// first question. Either way the query is counted as not blocked, and the
/// newest log entry holds the asked name and says so; the log grew by that
/// entry, or lost its oldest one for it.
pub proof fn law_forwarded_query_is_relayed(
    before: ServerView,
    request: RequestView,
    data: Seq<u8>,
    now: Timestamp,
    after: ServerView,
    pending: PendingView,
    answer: Option<Seq<u8>>,
    later: Timestamp,
    settled: ServerView,
    payload: Seq<u8>,
)
    requires
        before.valid(),
        datagram_handled(before, Some(request), data, now, after, ActionView::Forward { pending }),
        forward_settled(after, pending, answer, later, settled, payload),
    ensures
        request.questions.len() > 0,
        pending.payload == data,
        pending.id == request.id,
        pending.question == request.questions[0],
        after == before,
        answer matches Some(bytes) ==> payload == bytes,
        answer is None ==> payload == reply_bytes(
            request.id,
            ReplyCode::ServFail,
            request.questions[0].wire,
        ),
        answer is None ==> is_own_reply(payload, request.id, ReplyCode::ServFail),
        settled.history == ring_push(
            before.history,
            LogEntry {
                domain: without_root_dot(request.questions[0].name),
                timestamp: later,
                blocked: false,
            },
        ),
        settled.history.len() > 0,
        !settled.history.last().blocked,
        settled.history.last().domain == without_root_dot(request.questions[0].name),
        settled.history.len() == if before.history.len() < HISTORY_LIMIT {
            before.history.len() + 1
        } else {
            HISTORY_LIMIT as nat
        },
        settled.total_queries == before.total_queries + 1,
        settled.blocked_queries == before.blocked_queries,
{
    law_log_grows_or_drops_oldest(
        before.history,
        LogEntry {
            domain: without_root_dot(request.questions[0].name),
            timestamp: later,
            blocked: false,
        },
    );
}

/// Starting an engine that runs and stopping one that is stopped change
/// nothing and ask for nothing.
pub proof fn law_start_and_stop_are_idempotent()
    ensures
        transition(RunState::Running, Event::StartRequested) == (RunState::Running, Command::Nothing),
        transition(RunState::Stopped, Event::StopRequested) == (RunState::Stopped, Command::Nothing),
{
}

} // verus!
