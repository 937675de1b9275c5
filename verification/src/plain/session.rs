//! The decisions of the plaintext tunnel's client and server.
use vstd::prelude::*;
use crate::plain::message::{
    new_frame, ConnectorResponse, FrameView, ProxyRequest, ProxyResponse, ProxyResponseType,
    ProxyTransfer, TransferView,
};
use crate::socks::message::{
    target_text, MethodSelectionResponse, SocksAddr, SocksRequest, SocksRequestType,
    SocksRequestView, SocksResponse, SocksResponseView, TargetResponse, TargetResponseType,
};
use crate::frontend::target_answer;

verus! {

/// What a SOCKS client actor hears, as a value.
pub enum ConnectorResponseView {
    Succeeded,
    Failed,
    Data(Seq<u8>),
}

impl View for ConnectorResponse {
    type V = ConnectorResponseView;

    open spec fn view(&self) -> ConnectorResponseView {
        match self {
            ConnectorResponse::Succeeded => ConnectorResponseView::Succeeded,
            ConnectorResponse::Failed => ConnectorResponseView::Failed,
            ConnectorResponse::Data(d) => ConnectorResponseView::Data(d@),
        }
    }
}

/// Whether an id is the nil id, which heartbeats use.
pub open spec fn is_nil(uuid: Seq<u8>) -> bool {
    forall|i: int| 0 <= i < uuid.len() ==> #[trigger] uuid[i] == 0
}

/// Whether `uuid` is the nil id.
pub fn uuid_is_nil(uuid: &[u8; 16]) -> (b: bool)
    ensures
        b == is_nil(uuid@),
{
    let mut i: usize = 0;
    while i < 16
        invariant
            i <= 16,
            forall|k: int| 0 <= k < i ==> #[trigger] uuid@[k] == 0,
        decreases 16 - i,
    {
        if uuid[i] != 0 {
            return false;
        }
        i = i + 1;
    }
    true
}

/// What the client does with a frame from the server.
pub enum ClientAction {
    /// A heartbeat came back.
    HeartbeatAck,
    /// Hand this to the SOCKS client actor of the connection.
    ToSocksClient([u8; 16], ConnectorResponse),
}

/// The client's step, as a value.
pub enum ClientActionView {
    HeartbeatAck,
    ToSocksClient(Seq<u8>, ConnectorResponseView),
}

impl View for ClientAction {
    type V = ClientActionView;

    open spec fn view(&self) -> ClientActionView {
        match self {
            ClientAction::HeartbeatAck => ClientActionView::HeartbeatAck,
            ClientAction::ToSocksClient(u, r) => ClientActionView::ToSocksClient(u@, r@),
        }
    }
}

/// Whether the client can route a frame: the nil id carries only
/// heartbeats, any other id only data and outcomes.
pub open spec fn response_routable(f: FrameView) -> bool {
    if is_nil(f.uuid) {
        f.transfer is Heartbeat
    } else {
        f.transfer is Data || f.transfer is Response
    }
}

/// Where a routable frame goes: a heartbeat is acknowledged, data goes to
/// the connection's actor, success as success, refusal or timeout as failure.
pub open spec fn route(f: FrameView) -> ClientActionView {
    match f.transfer {
        TransferView::Data(d) => ClientActionView::ToSocksClient(f.uuid, ConnectorResponseView::Data(d)),
        TransferView::Response(r) => ClientActionView::ToSocksClient(
            f.uuid,
            match r {
                ProxyResponseType::Succeeded => ConnectorResponseView::Succeeded,
                _ => ConnectorResponseView::Failed,
            },
        ),
        _ => ClientActionView::HeartbeatAck,
    }
}

/// An outcome reaches the connection's actor, on that connection, as
/// success exactly when the server reported success; a refusal or a
/// timeout reaches it as a failure.
pub proof fn lemma_outcome_reaches_actor(f: FrameView, r: ProxyResponseType)
    requires
        f.transfer == TransferView::Response(r),
    ensures
        route(f) matches ClientActionView::ToSocksClient(u, c) && u == f.uuid && (c
            == ConnectorResponseView::Succeeded <==> r == ProxyResponseType::Succeeded) && (c
            == ConnectorResponseView::Failed <==> (r == ProxyResponseType::ConnectionRefused || r
            == ProxyResponseType::Timeout)),
{
}

/// Whether the client can route `item`; see `response_routable`.
pub fn is_routable(item: &ProxyResponse) -> (b: bool)
    ensures
        b == response_routable(item@),
{
    let nil = uuid_is_nil(&item.uuid());
    match item.transfer() {
        ProxyTransfer::Heartbeat => nil,
        ProxyTransfer::Data(_) => !nil,
        ProxyTransfer::Response(_) => !nil,
        ProxyTransfer::RequestAddr(_) => false,
    }
}

/// Routes a frame from the server; see `route`.
pub fn route_response(item: ProxyResponse) -> (a: ClientAction)
    requires
        response_routable(item@),
    ensures
        a@ == route(item@),
{
    let uuid = item.uuid();
    match item.into_transfer() {
        ProxyTransfer::Data(d) => ClientAction::ToSocksClient(uuid, ConnectorResponse::Data(d)),
        ProxyTransfer::Response(r) => ClientAction::ToSocksClient(
            uuid,
            match r {
                ProxyResponseType::Succeeded => ConnectorResponse::Succeeded,
                ProxyResponseType::ConnectionRefused => ConnectorResponse::Failed,
                ProxyResponseType::Timeout => ConnectorResponse::Failed,
            },
        ),
        _ => ClientAction::HeartbeatAck,
    }
}

/// The serving of one local SOCKS5 client over the plaintext tunnel.
pub struct SocksClient {
    pub uuid: [u8; 16],
    pub send_bytes: u64,
    pub recv_bytes: u64,
    pub target_address: Option<String>,
}

/// What a SOCKS client actor does next.
pub enum SocksClientAction {
    /// Write this to the local client.
    Reply(SocksResponse),
    /// Send this frame to the server.
    Send(ProxyRequest),
}

/// The actor's next step, as a value.
pub enum SocksClientActionView {
    Reply(SocksResponseView),
    Send(FrameView),
}

impl View for SocksClientAction {
    type V = SocksClientActionView;

    open spec fn view(&self) -> SocksClientActionView {
        match self {
            SocksClientAction::Reply(r) => SocksClientActionView::Reply(r@),
            SocksClientAction::Send(f) => SocksClientActionView::Send(f@),
        }
    }
}

impl SocksClient {
    /// An actor for connection `uuid` that has counted nothing and asked for
    /// nothing.
    pub fn new(uuid: [u8; 16]) -> (c: SocksClient)
        ensures
            c.uuid == uuid,
            c.send_bytes == 0,
            c.recv_bytes == 0,
            c.target_address is None,
    {
        SocksClient { uuid, send_bytes: 0, recv_bytes: 0, target_address: None }
    }

    /// Takes a message from the local client: a greeting is answered with
    /// version 5 and no authentication, a target request is remembered and
    /// forwarded as an address request, data is counted and forwarded.
    pub fn handle_request(&mut self, item: SocksRequest) -> (a: SocksClientAction)
        requires
            item@ matches SocksRequestView::Data(d) ==> old(self).send_bytes + d.len() <= u64::MAX,
        ensures
            final(self).uuid == old(self).uuid,
            final(self).recv_bytes == old(self).recv_bytes,
            match item@ {
                SocksRequestView::Negotiation { .. } => a@ == SocksClientActionView::Reply(
                    SocksResponseView::Negotiation { version: 5, method: 0 },
                ) && final(self).send_bytes == old(self).send_bytes && final(self).target_address
                    == old(self).target_address,
                SocksRequestView::TargetRequest(t) => a@ == SocksClientActionView::Send(
                    new_frame(old(self).uuid@, TransferView::RequestAddr(target_text(t))),
                ) && final(self).send_bytes == old(self).send_bytes && (final(self).target_address matches Some(s) && s@ == target_text(t)),
                SocksRequestView::Data(d) => a@ == SocksClientActionView::Send(
                    new_frame(old(self).uuid@, TransferView::Data(d)),
                ) && final(self).send_bytes == old(self).send_bytes + d.len()
                    && final(self).target_address == old(self).target_address,
            },
    {
        match item {
            SocksRequest::Negotiation(_) => SocksClientAction::Reply(
                SocksResponse::Negotiation(MethodSelectionResponse { version: 5, method: 0 }),
            ),
            SocksRequest::TargetRequest(t) => {
                let s = t.to_addressstring();
                self.target_address = Some(s.clone());
                SocksClientAction::Send(ProxyRequest::new(self.uuid, ProxyTransfer::RequestAddr(s)))
            },
            SocksRequest::Data(data) => {
                self.send_bytes = self.send_bytes + data.len() as u64;
                SocksClientAction::Send(ProxyRequest::new(self.uuid, ProxyTransfer::Data(data)))
            },
        }
    }

    /// Takes what the server says: success and failure need a target to have
    /// been asked for and are answered with a succeeded (domain "123") or
    /// refused (empty domain) target response; data is counted and written
    /// to the client.
    pub fn handle_response(&mut self, msg: ConnectorResponse) -> (a: SocksClientAction)
        requires
            match msg@ {
                ConnectorResponseView::Data(d) => old(self).recv_bytes + d.len() <= u64::MAX,
                _ => old(self).target_address is Some,
            },
        ensures
            final(self).uuid == old(self).uuid,
            final(self).send_bytes == old(self).send_bytes,
            final(self).target_address == old(self).target_address,
            match msg@ {
                ConnectorResponseView::Succeeded => a@ == SocksClientActionView::Reply(
                    target_answer(TargetResponseType::Succeeded, "123"@),
                ) && final(self).recv_bytes == old(self).recv_bytes,
                ConnectorResponseView::Failed => a@ == SocksClientActionView::Reply(
                    target_answer(TargetResponseType::ConnectionRefused, ""@),
                ) && final(self).recv_bytes == old(self).recv_bytes,
                ConnectorResponseView::Data(d) => a@ == SocksClientActionView::Reply(
                    SocksResponseView::Data(d),
                ) && final(self).recv_bytes == old(self).recv_bytes + d.len(),
            },
    {
        match msg {
            ConnectorResponse::Succeeded => SocksClientAction::Reply(
                SocksResponse::TargetResponse(
                    TargetResponse {
                        version: 5,
                        response: TargetResponseType::Succeeded,
                        reserved: 0,
                        response_type: SocksRequestType::DOMAIN,
                        address: SocksAddr::DOMAIN("123".to_owned()),
                        port: 0,
                    },
                ),
            ),
            ConnectorResponse::Failed => SocksClientAction::Reply(
                SocksResponse::TargetResponse(
                    TargetResponse {
                        version: 5,
                        response: TargetResponseType::ConnectionRefused,
                        reserved: 0,
                        response_type: SocksRequestType::DOMAIN,
                        address: SocksAddr::DOMAIN("".to_owned()),
                        port: 0,
                    },
                ),
            ),
            ConnectorResponse::Data(data) => {
                self.recv_bytes = self.recv_bytes + data.len() as u64;
                SocksClientAction::Reply(SocksResponse::Data(data))
            },
        }
    }
}

/// What the server does with a frame from the client.
pub enum ServerAction {
    /// Resolve and connect to `addr` for connection `uuid`.
    Connect { uuid: [u8; 16], addr: String },
    /// Write `data` to the target of connection `uuid`.
    Forward { uuid: [u8; 16], data: Vec<u8> },
    /// Send this frame back.
    Reply(ProxyResponse),
}

/// The server's step, as a value.
pub enum ServerActionView {
    Connect { uuid: Seq<u8>, addr: Seq<char> },
    Forward { uuid: Seq<u8>, data: Seq<u8> },
    Reply(FrameView),
}

impl View for ServerAction {
    type V = ServerActionView;

    open spec fn view(&self) -> ServerActionView {
        match self {
            ServerAction::Connect { uuid, addr } => ServerActionView::Connect {
                uuid: uuid@,
                addr: addr@,
            },
            ServerAction::Forward { uuid, data } => ServerActionView::Forward {
                uuid: uuid@,
                data: data@,
            },
            ServerAction::Reply(r) => ServerActionView::Reply(r@),
        }
    }
}

/// Whether the server can take a frame: data needs an open connection and
/// outcomes never travel this way.
pub open spec fn request_handleable(f: FrameView, has_connection: bool) -> bool {
    match f.transfer {
        TransferView::Data(_) => has_connection,
        TransferView::Response(_) => false,
        _ => true,
    }
}

/// The server's step: an address request becomes a connection attempt to
/// the whole address, data is forwarded, a heartbeat is echoed.
pub open spec fn server_step(f: FrameView) -> ServerActionView {
    match f.transfer {
        TransferView::RequestAddr(a) => ServerActionView::Connect { uuid: f.uuid, addr: a },
        TransferView::Data(d) => ServerActionView::Forward { uuid: f.uuid, data: d },
        TransferView::Heartbeat => ServerActionView::Reply(new_frame(f.uuid, TransferView::Heartbeat)),
        TransferView::Response(_) => ServerActionView::Forward { uuid: f.uuid, data: seq![] },
    }
}

/// The server's step for `item`; see `server_step`.
pub fn handle_request(item: ProxyRequest, has_connection: bool) -> (a: ServerAction)
    requires
        request_handleable(item@, has_connection),
    ensures
        a@ == server_step(item@),
{
    let uuid = item.uuid();
    match item.into_transfer() {
        ProxyTransfer::RequestAddr(addr) => ServerAction::Connect { uuid, addr },
        ProxyTransfer::Data(data) => ServerAction::Forward { uuid, data },
        ProxyTransfer::Heartbeat => ServerAction::Reply(ProxyResponse::new(uuid, ProxyTransfer::Heartbeat)),
        ProxyTransfer::Response(_) => ServerAction::Forward { uuid, data: Vec::new() },
    }
}

/// How reaching a target went.
#[derive(Clone, Copy, PartialEq, Eq, Structural)]
pub enum ResolveOutcome {
    Established,
    TimedOut,
    Failed,
}

/// The frame that reports how reaching the target of `uuid` went: success,
/// timeout when resolving timed out, refusal for any other failure.
pub fn resolve_response(uuid: [u8; 16], outcome: ResolveOutcome) -> (r: ProxyResponse)
    ensures
        r@ == new_frame(
            uuid@,
            TransferView::Response(
                match outcome {
                    ResolveOutcome::Established => ProxyResponseType::Succeeded,
                    ResolveOutcome::TimedOut => ProxyResponseType::Timeout,
                    ResolveOutcome::Failed => ProxyResponseType::ConnectionRefused,
                },
            ),
        ),
{
    let code = match outcome {
        ResolveOutcome::Established => ProxyResponseType::Succeeded,
        ResolveOutcome::TimedOut => ProxyResponseType::Timeout,
        ResolveOutcome::Failed => ProxyResponseType::ConnectionRefused,
    };
    ProxyResponse::new(uuid, ProxyTransfer::Response(code))
}

} // verus!
