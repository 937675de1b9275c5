//! The decisions of the front end: the heartbeat, the routing of what the
//! back end sends, and the SOCKS5 agent that serves one local client.
use vstd::prelude::*;
use std::collections::HashMap;
use crate::message::{
    payload_bytes, type_of, ConnectorResponse, FrameView, ProxyRequest, ProxyResponse,
    ProxyResponseType, ProxyTransfer, TransferView,
};
use crate::socks::message::{
    target_text, AddrView, MethodSelectionResponse, SocksAddr, SocksRequest, SocksRequestType,
    SocksRequestView, SocksResponse, SocksResponseView, TargetResponse, TargetResponseType,
    TargetResponseView,
};

verus! {

/// Whether a heartbeat has gone unanswered for too long: strictly more than
/// `limit_secs` seconds have passed (given as seconds and nanoseconds).
pub open spec fn heartbeat_late(elapsed_secs: u64, elapsed_nanos: u32, limit_secs: u64) -> bool {
    elapsed_secs > limit_secs || (elapsed_secs == limit_secs && elapsed_nanos > 0)
}

/// A heartbeat is late exactly when the time elapsed, in nanoseconds,
/// exceeds the limit: where the nanoseconds are a fraction of a second,
/// `heartbeat_late` holds just when `secs * 10^9 + nanos > limit * 10^9`.
pub proof fn lemma_heartbeat_late_is_elapsed_time(secs: u64, nanos: u32, limit: u64)
    requires
        nanos < 1_000_000_000,
    ensures
        heartbeat_late(secs, nanos, limit) <==> secs * 1_000_000_000 + nanos > limit
            * 1_000_000_000,
{
    if secs > limit {
        assert(secs * 1_000_000_000 >= (limit + 1) * 1_000_000_000) by (nonlinear_arith)
            requires
                secs >= limit + 1,
        ;
    } else if secs < limit {
        assert(secs * 1_000_000_000 + 1_000_000_000 <= limit * 1_000_000_000) by (nonlinear_arith)
            requires
                secs + 1 <= limit,
        ;
    }
}

/// Whether a heartbeat has gone unanswered for too long; see
/// `heartbeat_late`. The front end gives up after 10 seconds.
pub fn heartbeat_expired(elapsed_secs: u64, elapsed_nanos: u32, limit_secs: u64) -> (b: bool)
    ensures
        b == heartbeat_late(elapsed_secs, elapsed_nanos, limit_secs),
{
    elapsed_secs > limit_secs || (elapsed_secs == limit_secs && elapsed_nanos > 0)
}

/// The sender of heartbeats: it counts the heartbeats it has sent.
pub struct HeartbeatActor {
    pub hb_index: u32,
}

impl HeartbeatActor {
    /// No heartbeat sent yet.
    pub fn new() -> (h: HeartbeatActor)
        ensures
            h.hb_index == 0,
    {
        HeartbeatActor { hb_index: 0 }
    }

    /// The next heartbeat: the count goes up by one and the request on
    /// connection 0 carries the new count.
    pub fn handle(&mut self) -> (req: ProxyRequest)
        requires
            old(self).hb_index < u32::MAX,
        ensures
            final(self).hb_index == old(self).hb_index + 1,
            req@ == (FrameView {
                uuid: 0,
                transfer_len: 4,
                transfer_type: type_of(TransferView::Heartbeat(final(self).hb_index)),
                transfer: TransferView::Heartbeat(final(self).hb_index),
            }),
    {
        self.hb_index = self.hb_index + 1;
        ProxyRequest::new(0, ProxyTransfer::Heartbeat(self.hb_index))
    }
}

/// What the front end does with a frame from the back end.
pub enum FrontendAction {
    /// The answer to heartbeat `index` arrived.
    HeartbeatAck(u32),
    /// Hand this to the agent of the connection.
    ToAgent(u16, ConnectorResponse),
}

/// A frame from the back end as a value, for routing.
pub enum FrontendActionView {
    HeartbeatAck(u32),
    ToAgent(u16, ConnectorResponseView),
}

/// What an agent hears, as a value.
pub enum ConnectorResponseView {
    Succeeded,
    Failed,
    Data(Seq<u8>),
    Abort,
}

impl View for ConnectorResponse {
    type V = ConnectorResponseView;

    open spec fn view(&self) -> ConnectorResponseView {
        match self {
            ConnectorResponse::Succeeded => ConnectorResponseView::Succeeded,
            ConnectorResponse::Failed => ConnectorResponseView::Failed,
            ConnectorResponse::Data(d) => ConnectorResponseView::Data(d@),
            ConnectorResponse::Abort => ConnectorResponseView::Abort,
        }
    }
}

impl View for FrontendAction {
    type V = FrontendActionView;

    open spec fn view(&self) -> FrontendActionView {
        match self {
            FrontendAction::HeartbeatAck(i) => FrontendActionView::HeartbeatAck(*i),
            FrontendAction::ToAgent(u, r) => FrontendActionView::ToAgent(*u, r@),
        }
    }
}

/// Whether the front end can route a frame: connection 0 carries only
/// heartbeats; any other connection only data and outcomes.
pub open spec fn response_routable(f: FrameView) -> bool {
    if f.uuid == 0 {
        f.transfer is Heartbeat
    } else {
        f.transfer is Data || f.transfer is Response
    }
}

/// Where a routable frame goes: a heartbeat is acknowledged; data goes to
/// the agent; success is reported as success, a refusal or a timeout as a
/// failure, an abort as an abort.
pub open spec fn route(f: FrameView) -> FrontendActionView {
    match f.transfer {
        TransferView::Heartbeat(i) => FrontendActionView::HeartbeatAck(i),
        TransferView::Data(d) => FrontendActionView::ToAgent(f.uuid, ConnectorResponseView::Data(d)),
        TransferView::Response(r) => FrontendActionView::ToAgent(
            f.uuid,
            match r {
                ProxyResponseType::Succeeded => ConnectorResponseView::Succeeded,
                ProxyResponseType::Abort => ConnectorResponseView::Abort,
                _ => ConnectorResponseView::Failed,
            },
        ),
        TransferView::RequestAddr(_) => FrontendActionView::HeartbeatAck(0),
    }
}

/// An outcome reaches the agent of its connection as success exactly when
/// the back end reported success, as an abort exactly when it reported an
/// abort, and as a failure for a refusal or a timeout.
pub proof fn lemma_outcome_reaches_agent(f: FrameView, r: ProxyResponseType)
    requires
        f.transfer == TransferView::Response(r),
    ensures
        route(f) matches FrontendActionView::ToAgent(u, c) && u == f.uuid && (c
            == ConnectorResponseView::Succeeded <==> r == ProxyResponseType::Succeeded) && (c
            == ConnectorResponseView::Abort <==> r == ProxyResponseType::Abort) && (c
            == ConnectorResponseView::Failed <==> (r == ProxyResponseType::ConnectionRefused || r
            == ProxyResponseType::Timeout)),
{
}

/// Whether the front end can route `item`; see `response_routable`.
pub fn is_routable(item: &ProxyResponse) -> (b: bool)
    ensures
        b == response_routable(item@),
{
    let uuid = item.uuid();
    match item.transfer() {
        ProxyTransfer::Heartbeat(_) => uuid == 0,
        ProxyTransfer::Data(_) => uuid != 0,
        ProxyTransfer::Response(_) => uuid != 0,
        ProxyTransfer::RequestAddr(_) => false,
    }
}

/// Routes a frame from the back end; see `route`.
pub fn route_response(item: ProxyResponse) -> (a: FrontendAction)
    requires
        response_routable(item@),
    ensures
        a@ == route(item@),
{
    let uuid = item.uuid();
    match item.into_transfer() {
        ProxyTransfer::Heartbeat(i) => FrontendAction::HeartbeatAck(i),
        ProxyTransfer::Data(d) => FrontendAction::ToAgent(uuid, ConnectorResponse::Data(d)),
        ProxyTransfer::Response(r) => FrontendAction::ToAgent(
            uuid,
            match r {
                ProxyResponseType::Succeeded => ConnectorResponse::Succeeded,
                ProxyResponseType::ConnectionRefused => ConnectorResponse::Failed,
                ProxyResponseType::Timeout => ConnectorResponse::Failed,
                ProxyResponseType::Abort => ConnectorResponse::Abort,
            },
        ),
        ProxyTransfer::RequestAddr(_) => FrontendAction::HeartbeatAck(0),
    }
}

/// The front end's state: the agent serving each local client, by its
/// connection id, and what writes frames into the tunnel once it is open.
pub struct FrontEndServer<S, W> {
    clients: HashMap<u16, S>,
    writer: Option<W>,
}

impl<S, W> FrontEndServer<S, W> {
    /// The agent of each connection, by its id.
    pub closed spec fn clients(&self) -> Map<u16, S> {
        self.clients@
    }

    /// What writes into the tunnel, once there is one.
    pub closed spec fn tunnel(&self) -> Option<W> {
        self.writer
    }

    /// No agent and no tunnel yet.
    pub fn new() -> (f: FrontEndServer<S, W>)
        ensures
            f.clients() == Map::<u16, S>::empty(),
            f.tunnel() is None,
    {
        FrontEndServer { clients: HashMap::new(), writer: None }
    }

    /// A local client connected on port `uuid`: `agent` serves it from now
    /// on (in place of any agent that port had).
    pub fn connected(&mut self, uuid: u16, agent: S)
        ensures
            final(self).clients() == old(self).clients().insert(uuid, agent),
            final(self).tunnel() == old(self).tunnel(),
    {
        broadcast use vstd::std_specs::hash::group_hash_axioms;
        let _ = self.clients.insert(uuid, agent);
    }

    /// The tunnel to the back end is open and `w` writes into it.
    pub fn tunnel_opened(&mut self, w: W)
        ensures
            final(self).clients() == old(self).clients(),
            final(self).tunnel() == Some(w),
    {
        self.writer = Some(w);
    }

    /// The agent that serves connection `uuid`, where one does.
    pub fn agent(&self, uuid: u16) -> (a: Option<&S>)
        ensures
            match a {
                Some(x) => self.clients().contains_key(uuid) && *x == self.clients()[uuid],
                None => !self.clients().contains_key(uuid),
            },
    {
        broadcast use vstd::std_specs::hash::group_hash_axioms;
        self.clients.get(&uuid)
    }

    /// Where a frame from an agent goes: into the tunnel, where it is open;
    /// nowhere before that.
    pub fn writer(&self) -> (w: Option<&W>)
        ensures
            match w {
                Some(x) => self.tunnel() == Some(*x),
                None => self.tunnel() is None,
            },
    {
        match &self.writer {
            Some(x) => Some(x),
            None => None,
        }
    }
}

/// The protocol an agent speaks with its local client.
pub enum AgentInner {
    Socks5,
    Http,
    Tap,
    Nop,
}

/// The protocols an agent can be asked to speak; only SOCKS5 is served.
#[derive(Clone, Copy, PartialEq, Eq, Structural)]
pub enum AgentType {
    Socks5,
    Http,
    Tap,
}

/// The serving of one local client: its connection id, the traffic counted
/// each way, and the target it asked for.
pub struct Agent {
    pub inner: AgentInner,
    pub uuid: u16,
    pub send_bytes: u64,
    pub recv_bytes: u64,
    pub target_address: Option<String>,
    pub events: Ghost<Seq<AgentEvent>>,
}

/// What an agent does next.
pub enum AgentAction {
    /// Write this to the local client.
    Reply(SocksResponse),
    /// Send this frame to the back end.
    Send(ProxyRequest),
    /// Stop serving the client.
    Stop,
}

/// An agent's next step, as a value.
pub enum AgentActionView {
    Reply(SocksResponseView),
    Send(FrameView),
    Stop,
}

impl View for AgentAction {
    type V = AgentActionView;

    open spec fn view(&self) -> AgentActionView {
        match self {
            AgentAction::Reply(r) => AgentActionView::Reply(r@),
            AgentAction::Send(f) => AgentActionView::Send(f@),
            AgentAction::Stop => AgentActionView::Stop,
        }
    }
}

/// A frame for connection `uuid` carrying `t`, as `ProxyRequest::new` builds
/// it.
pub open spec fn request_frame(uuid: u16, t: TransferView) -> FrameView {
    FrameView { uuid, transfer_len: payload_bytes(t).len(), transfer_type: type_of(t), transfer: t }
}

/// The answer to a target request: version 5, the outcome, a domain
/// address and port 0.
pub open spec fn target_answer(response: TargetResponseType, domain: Seq<char>) -> SocksResponseView {
    SocksResponseView::TargetResponse(
        TargetResponseView {
            version: 5,
            response,
            reserved: 0,
            response_type: SocksRequestType::DOMAIN,
            address: AddrView::DOMAIN(domain),
            port: 0,
        },
    )
}

/// Whether an agent can take a message from its client: data must not
/// overflow the count of bytes sent.
pub open spec fn agent_accepts_request(send_bytes: u64, r: SocksRequestView) -> bool {
    match r {
        SocksRequestView::Data(d) => send_bytes + d.len() <= u64::MAX,
        _ => true,
    }
}

/// Whether an agent can take what the back end says: an outcome needs a
/// target to have been asked for, and data must not overflow the count of
/// bytes received.
pub open spec fn agent_accepts_response(
    target_asked: bool,
    recv_bytes: u64,
    r: ConnectorResponseView,
) -> bool {
    match r {
        ConnectorResponseView::Succeeded => target_asked,
        ConnectorResponseView::Failed => target_asked,
        ConnectorResponseView::Data(d) => recv_bytes + d.len() <= u64::MAX,
        ConnectorResponseView::Abort => true,
    }
}

/// A message an agent takes, as a value: from its SOCKS5 client or from the
/// back end.
pub enum AgentEvent {
    FromClient(SocksRequestView),
    FromBackend(ConnectorResponseView),
}

/// The bytes of data an event carries to the back end.
pub open spec fn data_sent(e: AgentEvent) -> nat {
    match e {
        AgentEvent::FromClient(SocksRequestView::Data(d)) => d.len(),
        _ => 0,
    }
}

/// The bytes of data an event carries to the client.
pub open spec fn data_received(e: AgentEvent) -> nat {
    match e {
        AgentEvent::FromBackend(ConnectorResponseView::Data(d)) => d.len(),
        _ => 0,
    }
}

/// The bytes of data that `events` carry to the back end.
pub open spec fn sent_total(events: Seq<AgentEvent>) -> nat
    decreases events.len(),
{
    if events.len() == 0 {
        0
    } else {
        sent_total(events.drop_last()) + data_sent(events.last())
    }
}

/// The bytes of data that `events` carry to the client.
pub open spec fn received_total(events: Seq<AgentEvent>) -> nat
    decreases events.len(),
{
    if events.len() == 0 {
        0
    } else {
        received_total(events.drop_last()) + data_received(events.last())
    }
}

/// How an agent's counts of bytes sent and received change with one event.
pub open spec fn counts_step(before: (nat, nat), e: AgentEvent, after: (nat, nat)) -> bool {
    after.0 == before.0 + data_sent(e) && after.1 == before.1 + data_received(e)
}

/// Over any run of a new agent, its counts are the bytes of data forwarded to
/// the back end and written to the client: where `counts` holds the counts
/// before each event and after the last, starting from nothing, the last
/// counts are the totals of `events`.
pub proof fn lemma_agent_counts(events: Seq<AgentEvent>, counts: Seq<(nat, nat)>)
    requires
        counts.len() == events.len() + 1,
        counts[0] == (0nat, 0nat),
        forall|i: int| 0 <= i < events.len() ==> counts_step(#[trigger] counts[i], events[i], counts[i + 1]),
    ensures
        counts.last() == (sent_total(events), received_total(events)),
    decreases events.len(),
{
    if events.len() > 0 {
        let n = events.len() - 1;
        lemma_agent_counts(events.drop_last(), counts.drop_last());
        assert(counts_step(counts[n], events[n], counts[n + 1]));
    }
}

/// A message an agent takes: from its SOCKS5 client or from the back end.
pub enum AgentMessage {
    FromClient(SocksRequest),
    FromBackend(ConnectorResponse),
}

impl View for AgentMessage {
    type V = AgentEvent;

    open spec fn view(&self) -> AgentEvent {
        match self {
            AgentMessage::FromClient(r) => AgentEvent::FromClient(r@),
            AgentMessage::FromBackend(r) => AgentEvent::FromBackend(r@),
        }
    }
}

/// What an agent for connection `uuid` does with a message from its client:
/// a greeting is answered with version 5 and no authentication, a target
/// request goes to the back end as an address request by its `host:port`
/// text, and data goes to the back end.
pub open spec fn client_action(uuid: u16, r: SocksRequestView) -> AgentActionView {
    match r {
        SocksRequestView::Negotiation { .. } => AgentActionView::Reply(
            SocksResponseView::Negotiation { version: 5, method: 0 },
        ),
        SocksRequestView::TargetRequest(t) => AgentActionView::Send(
            request_frame(uuid, TransferView::RequestAddr(target_text(t))),
        ),
        SocksRequestView::Data(d) => AgentActionView::Send(request_frame(uuid, TransferView::Data(d))),
    }
}

/// What an agent does with what the back end says: success is answered
/// with a succeeded target response (domain "123"), failure with a refused
/// one (empty domain), data is written to the client, and an abort stops
/// the agent.
pub open spec fn backend_action(r: ConnectorResponseView) -> AgentActionView {
    match r {
        ConnectorResponseView::Succeeded => AgentActionView::Reply(
            target_answer(TargetResponseType::Succeeded, "123"@),
        ),
        ConnectorResponseView::Failed => AgentActionView::Reply(
            target_answer(TargetResponseType::ConnectionRefused, ""@),
        ),
        ConnectorResponseView::Data(d) => AgentActionView::Reply(SocksResponseView::Data(d)),
        ConnectorResponseView::Abort => AgentActionView::Stop,
    }
}

/// What an agent for connection `uuid` does with event `e`.
pub open spec fn agent_action(uuid: u16, e: AgentEvent) -> AgentActionView {
    match e {
        AgentEvent::FromClient(r) => client_action(uuid, r),
        AgentEvent::FromBackend(r) => backend_action(r),
    }
}

/// Whether an agent can take event `e`: see `agent_accepts_request` and
/// `agent_accepts_response`.
pub open spec fn agent_accepts(target_asked: bool, send_bytes: u64, recv_bytes: u64, e: AgentEvent) -> bool {
    match e {
        AgentEvent::FromClient(r) => agent_accepts_request(send_bytes, r),
        AgentEvent::FromBackend(r) => agent_accepts_response(target_asked, recv_bytes, r),
    }
}

/// The target an agent remembers after event `e`: the `host:port` text of
/// a target request, else the one it had.
pub open spec fn target_after(before: Option<Seq<char>>, e: AgentEvent) -> Option<Seq<char>> {
    match e {
        AgentEvent::FromClient(SocksRequestView::TargetRequest(t)) => Some(target_text(t)),
        _ => before,
    }
}

/// The target an agent remembers, as text.
pub open spec fn target_view(t: Option<String>) -> Option<Seq<char>> {
    match t {
        Some(s) => Some(s@),
        None => None,
    }
}

proof fn lemma_totals_push(events: Seq<AgentEvent>, e: AgentEvent)
    ensures
        sent_total(events.push(e)) == sent_total(events) + data_sent(e),
        received_total(events.push(e)) == received_total(events) + data_received(e),
{
    assert(events.push(e).drop_last() =~= events);
}

impl Agent {
    /// The events this agent has taken, in order.
    pub open spec fn events(&self) -> Seq<AgentEvent> {
        self.events@
    }

    /// Whether the counts of bytes sent and received are the bytes of data
    /// that the events taken forwarded to the back end and wrote to the
    /// client.
    pub open spec fn counts_kept(&self) -> bool {
        &&& self.send_bytes == sent_total(self.events())
        &&& self.recv_bytes == received_total(self.events())
    }

    /// An agent for connection `uuid` that has taken nothing, counted
    /// nothing and asked for nothing; only SOCKS5 is served.
    pub fn new(t: AgentType, uuid: u16) -> (a: Agent)
        requires
            t == AgentType::Socks5,
        ensures
            a.inner is Socks5,
            a.uuid == uuid,
            a.send_bytes == 0,
            a.recv_bytes == 0,
            a.target_address is None,
            a.events() == Seq::<AgentEvent>::empty(),
            a.counts_kept(),
    {
        Agent {
            inner: AgentInner::Socks5,
            uuid,
            send_bytes: 0,
            recv_bytes: 0,
            target_address: None,
            events: Ghost(Seq::empty()),
        }
    }

    /// Takes a message from the local client (see `client_action`): a
    /// target request is remembered by its `host:port` text, and data is
    /// counted.
    pub fn handle_request(&mut self, item: SocksRequest) -> (a: AgentAction)
        requires
            agent_accepts_request(old(self).send_bytes, item@),
        ensures
            a@ == client_action(old(self).uuid, item@),
            final(self).uuid == old(self).uuid,
            final(self).events() == old(self).events().push(AgentEvent::FromClient(item@)),
            counts_step(
                (old(self).send_bytes as nat, old(self).recv_bytes as nat),
                AgentEvent::FromClient(item@),
                (final(self).send_bytes as nat, final(self).recv_bytes as nat),
            ),
            target_view(final(self).target_address) == target_after(
                target_view(old(self).target_address),
                AgentEvent::FromClient(item@),
            ),
            old(self).counts_kept() ==> final(self).counts_kept(),
    {
        proof {
            lemma_totals_push(self.events@, AgentEvent::FromClient(item@));
            self.events@ = self.events@.push(AgentEvent::FromClient(item@));
        }
        match item {
            SocksRequest::Negotiation(_) => AgentAction::Reply(
                SocksResponse::Negotiation(MethodSelectionResponse { version: 5, method: 0 }),
            ),
            SocksRequest::TargetRequest(t) => {
                let s = t.to_addressstring();
                self.target_address = Some(s.clone());
                AgentAction::Send(ProxyRequest::new(self.uuid, ProxyTransfer::RequestAddr(s)))
            },
            SocksRequest::Data(data) => {
                self.send_bytes = self.send_bytes + data.len() as u64;
                AgentAction::Send(ProxyRequest::new(self.uuid, ProxyTransfer::Data(data)))
            },
        }
    }

    /// Takes what the back end says about the connection (see
    /// `backend_action`): data is counted.
    pub fn handle_response(&mut self, msg: ConnectorResponse) -> (a: AgentAction)
        requires
            agent_accepts_response(old(self).target_address is Some, old(self).recv_bytes, msg@),
        ensures
            a@ == backend_action(msg@),
            final(self).uuid == old(self).uuid,
            final(self).target_address == old(self).target_address,
            final(self).events() == old(self).events().push(AgentEvent::FromBackend(msg@)),
            counts_step(
                (old(self).send_bytes as nat, old(self).recv_bytes as nat),
                AgentEvent::FromBackend(msg@),
                (final(self).send_bytes as nat, final(self).recv_bytes as nat),
            ),
            old(self).counts_kept() ==> final(self).counts_kept(),
    {
        proof {
            lemma_totals_push(self.events@, AgentEvent::FromBackend(msg@));
            self.events@ = self.events@.push(AgentEvent::FromBackend(msg@));
        }
        match msg {
            ConnectorResponse::Succeeded => AgentAction::Reply(
                SocksResponse::TargetResponse(
                    TargetResponse {
                        version: 5,
                        response: TargetResponseType::Succeeded,
                        reserved: 0,
                        response_type: SocksRequestType::DOMAIN,
                        address: SocksAddr::DOMAIN("123".to_owned()),
                        port: 0,
                    },
                ),
            ),
            ConnectorResponse::Failed => AgentAction::Reply(
                SocksResponse::TargetResponse(
                    TargetResponse {
                        version: 5,
                        response: TargetResponseType::ConnectionRefused,
                        reserved: 0,
                        response_type: SocksRequestType::DOMAIN,
                        address: SocksAddr::DOMAIN("".to_owned()),
                        port: 0,
                    },
                ),
            ),
            ConnectorResponse::Data(data) => {
                self.recv_bytes = self.recv_bytes + data.len() as u64;
                AgentAction::Reply(SocksResponse::Data(data))
            },
            ConnectorResponse::Abort => AgentAction::Stop,
        }
    }

    /// Takes one message, from the client or from the back end, as
    /// `handle_request` or `handle_response` does. Its counts stay the bytes
    /// of data forwarded to the back end and written to the client over all
    /// the messages it has taken since `new`.
    pub fn handle(&mut self, msg: AgentMessage) -> (a: AgentAction)
        requires
            agent_accepts(
                old(self).target_address is Some,
                old(self).send_bytes,
                old(self).recv_bytes,
                msg@,
            ),
        ensures
            a@ == agent_action(old(self).uuid, msg@),
            final(self).uuid == old(self).uuid,
            final(self).events() == old(self).events().push(msg@),
            counts_step(
                (old(self).send_bytes as nat, old(self).recv_bytes as nat),
                msg@,
                (final(self).send_bytes as nat, final(self).recv_bytes as nat),
            ),
            target_view(final(self).target_address) == target_after(
                target_view(old(self).target_address),
                msg@,
            ),
            old(self).counts_kept() ==> final(self).send_bytes == sent_total(final(self).events())
                && final(self).recv_bytes == received_total(final(self).events()),
    {
        match msg {
            AgentMessage::FromClient(r) => self.handle_request(r),
            AgentMessage::FromBackend(r) => self.handle_response(r),
        }
    }
}

} // verus!
