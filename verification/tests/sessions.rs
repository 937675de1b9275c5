use just_proxy_lib::backend::{
    ConnectionTable, handle_message, is_handleable, outcome_response, parse_host_port, parse_port,
    process_heartbeat, BackendAction, ConnectOutcome,
};
use just_proxy_lib::frontend::{
    heartbeat_expired, is_routable, route_response, Agent, AgentAction, AgentMessage, AgentType,
    FrontEndServer, FrontendAction, HeartbeatActor,
};
use just_proxy_lib::message::{
    ConnectorResponse, ProxyRequest, ProxyResponse, ProxyResponseType, ProxyTransfer,
    ProxyTransferType,
};
use just_proxy_lib::socks::message::{
    MethodSelectionRequest, SocksAddr, SocksRequest, SocksRequestCommand, SocksRequestType,
    SocksResponse, TargetRequest, TargetResponseType,
};

fn hp(s: &str) -> Option<(String, u16)> {
    parse_host_port(&s.to_string())
}

#[test]
fn host_and_port_are_read() {
    assert_eq!(hp("example.com:443"), Some(("example.com".to_string(), 443)));
    assert_eq!(hp("127.0.0.1:0"), Some(("127.0.0.1".to_string(), 0)));
    assert_eq!(hp("h:65535"), Some(("h".to_string(), 65535)));
    assert_eq!(hp("h:+80"), Some(("h".to_string(), 80)));
    assert_eq!(hp("h:0080"), Some(("h".to_string(), 80)));
    // The port ends at the next colon; the host may be empty.
    assert_eq!(hp("h:80:rest"), Some(("h".to_string(), 80)));
    assert_eq!(hp(":1"), Some((String::new(), 1)));
    assert_eq!(hp("héllo:22"), Some(("héllo".to_string(), 22)));
    // A bracketed host is what the brackets hold.
    assert_eq!(hp("[::1]:80"), Some(("::1".to_string(), 80)));
    assert_eq!(hp("[2001:db8::1]:443:x"), Some(("2001:db8::1".to_string(), 443)));
    assert_eq!(hp("[]:7"), Some((String::new(), 7)));
    assert_eq!(hp("[::1]"), None);
    assert_eq!(hp("[::1]x80"), None);
    assert_eq!(hp("[::1:80"), None);
    assert_eq!(hp("[::1]:70000"), None);
}

#[test]
fn bad_addresses_are_refused() {
    assert_eq!(hp("example.com"), None);
    assert_eq!(hp("h:"), None);
    assert_eq!(hp("h::80"), None);
    assert_eq!(hp("h:65536"), None);
    assert_eq!(hp("h:-1"), None);
    assert_eq!(hp("h:8x"), None);
    assert_eq!(hp("h:+"), None);
    assert_eq!(hp("::1:443"), None);
}

#[test]
fn ports_are_parsed() {
    assert_eq!(parse_port(b"0"), Some(0));
    assert_eq!(parse_port(b"12345"), Some(12345));
    assert_eq!(parse_port(b"+7"), Some(7));
    assert_eq!(parse_port(b"99999999999"), None);
    assert_eq!(parse_port(b""), None);
    assert_eq!(parse_port(b" 1"), None);
}

#[test]
fn heartbeats_are_echoed() {
    let r = process_heartbeat(ProxyRequest::new(0, ProxyTransfer::Heartbeat(41))).unwrap();
    assert_eq!(r.uuid, 0);
    assert_eq!(r.response, ProxyTransfer::Heartbeat(41));
    assert_eq!(r.transfer_len(), 4);
    assert_eq!(r.transfer_type(), ProxyTransferType::Heartbeat);
    assert!(process_heartbeat(ProxyRequest::new(3, ProxyTransfer::Data(vec![1]))).is_none());
    assert!(process_heartbeat(ProxyRequest::new(3, ProxyTransfer::RequestAddr("a:1".to_string()))).is_none());
}

#[test]
fn backend_steps() {
    let req = ProxyRequest::new(4, ProxyTransfer::RequestAddr("example.org:8080".to_string()));
    assert!(is_handleable(&req, false));
    match handle_message(req, false) {
        BackendAction::Connect { uuid, host, port } => {
            assert_eq!(uuid, 4);
            assert_eq!(host, "example.org");
            assert_eq!(port, 8080);
        }
        _ => panic!("expected a connection attempt"),
    }
    let data = ProxyRequest::new(4, ProxyTransfer::Data(b"GET /".to_vec()));
    assert!(!is_handleable(&data, false));
    assert!(is_handleable(&data, true));
    match handle_message(data, true) {
        BackendAction::Forward { uuid, data } => {
            assert_eq!(uuid, 4);
            assert_eq!(data, b"GET /".to_vec());
        }
        _ => panic!("expected forwarding"),
    }
    let hb = ProxyRequest::new(0, ProxyTransfer::Heartbeat(9));
    match handle_message(hb, false) {
        BackendAction::Reply(r) => {
            assert_eq!(r.uuid, 0);
            assert_eq!(r.response, ProxyTransfer::Heartbeat(9));
        }
        _ => panic!("expected an echo"),
    }
    let resp = ProxyRequest::new(4, ProxyTransfer::Response(ProxyResponseType::Succeeded));
    assert!(!is_handleable(&resp, true));
    // An address without a host and port is refused.
    let bad = ProxyRequest::new(4, ProxyTransfer::RequestAddr("nowhere".to_string()));
    assert!(is_handleable(&bad, true));
    match handle_message(bad, false) {
        BackendAction::Reply(r) => {
            assert_eq!(r.uuid, 4);
            assert_eq!(r.response, ProxyTransfer::Response(ProxyResponseType::ConnectionRefused));
        }
        _ => panic!("expected a refusal"),
    }
}

#[test]
fn connection_outcomes_are_reported() {
    let cases = [
        (ConnectOutcome::Established, ProxyResponseType::Succeeded),
        (ConnectOutcome::TimedOut, ProxyResponseType::Timeout),
        (ConnectOutcome::Failed, ProxyResponseType::ConnectionRefused),
        (ConnectOutcome::Dead, ProxyResponseType::Abort),
    ];
    for (o, code) in cases.iter() {
        let r = outcome_response(12, *o);
        assert_eq!(r.uuid, 12);
        assert_eq!(r.response, ProxyTransfer::Response(*code));
        assert_eq!(r.transfer_len(), 1);
        assert_eq!(r.transfer_type(), ProxyTransferType::Response);
    }
}

#[test]
fn heartbeat_counting() {
    let mut h = HeartbeatActor::new();
    assert_eq!(h.hb_index, 0);
    let r = h.handle();
    assert_eq!(h.hb_index, 1);
    assert_eq!(r.uuid, 0);
    assert_eq!(r.request, ProxyTransfer::Heartbeat(1));
    let r = h.handle();
    assert_eq!(r.request, ProxyTransfer::Heartbeat(2));
    assert_eq!(r.transfer_len(), 4);
}

#[test]
fn heartbeat_deadline() {
    assert!(!heartbeat_expired(0, 0, 10));
    assert!(!heartbeat_expired(9, 999_999_999, 10));
    assert!(!heartbeat_expired(10, 0, 10));
    assert!(heartbeat_expired(10, 1, 10));
    assert!(heartbeat_expired(11, 0, 10));
}

#[test]
fn frames_from_the_backend_are_routed() {
    let hb = ProxyResponse::new(0, ProxyTransfer::Heartbeat(5));
    assert!(is_routable(&hb));
    assert!(matches!(route_response(hb), FrontendAction::HeartbeatAck(5)));
    let data = ProxyResponse::new(3, ProxyTransfer::Data(vec![7, 8]));
    assert!(is_routable(&data));
    match route_response(data) {
        FrontendAction::ToAgent(3, ConnectorResponse::Data(d)) => assert_eq!(d, vec![7, 8]),
        _ => panic!("expected data for agent 3"),
    }
    let expected = [
        (ProxyResponseType::Succeeded, 0),
        (ProxyResponseType::ConnectionRefused, 1),
        (ProxyResponseType::Timeout, 1),
        (ProxyResponseType::Abort, 2),
    ];
    for (code, kind) in expected.iter() {
        let r = ProxyResponse::new(8, ProxyTransfer::Response(*code));
        let got = match route_response(r) {
            FrontendAction::ToAgent(8, ConnectorResponse::Succeeded) => 0,
            FrontendAction::ToAgent(8, ConnectorResponse::Failed) => 1,
            FrontendAction::ToAgent(8, ConnectorResponse::Abort) => 2,
            _ => 3,
        };
        assert_eq!(got, *kind);
    }
    assert!(!is_routable(&ProxyResponse::new(0, ProxyTransfer::Data(vec![1]))));
    assert!(!is_routable(&ProxyResponse::new(2, ProxyTransfer::Heartbeat(1))));
    assert!(!is_routable(&ProxyResponse::new(2, ProxyTransfer::RequestAddr("a:1".to_string()))));
}

#[test]
fn agent_serves_one_client() {
    let mut a = Agent::new(AgentType::Socks5, 21);
    assert_eq!(a.uuid, 21);
    assert_eq!(a.send_bytes, 0);
    assert_eq!(a.recv_bytes, 0);
    assert!(a.target_address.is_none());

    let greeting = SocksRequest::Negotiation(MethodSelectionRequest { version: 5, n_methods: 1, methods: vec![0] });
    match a.handle_request(greeting) {
        AgentAction::Reply(SocksResponse::Negotiation(m)) => {
            assert_eq!(m.version, 5);
            assert_eq!(m.method, 0);
        }
        _ => panic!("expected the method selection"),
    }

    let target = TargetRequest {
        version: 5,
        command: SocksRequestCommand::CONNECT,
        reserved: 0,
        request_type: SocksRequestType::IpV4,
        address: SocksAddr::IPV4([93, 184, 216, 34]),
        port: 80,
    };
    match a.handle_request(SocksRequest::TargetRequest(target)) {
        AgentAction::Send(f) => {
            assert_eq!(f.uuid, 21);
            assert_eq!(f.request, ProxyTransfer::RequestAddr("93.184.216.34:80".to_string()));
            assert_eq!(f.transfer_len(), 16);
        }
        _ => panic!("expected an address request"),
    }
    assert_eq!(a.target_address.as_deref(), Some("93.184.216.34:80"));

    match a.handle_response(ConnectorResponse::Succeeded) {
        AgentAction::Reply(SocksResponse::TargetResponse(t)) => {
            assert_eq!(t.version, 5);
            assert_eq!(t.response, TargetResponseType::Succeeded);
            assert_eq!(t.reserved, 0);
            assert_eq!(t.response_type, SocksRequestType::DOMAIN);
            assert!(matches!(t.address, SocksAddr::DOMAIN(ref d) if d == "123"));
            assert_eq!(t.port, 0);
        }
        _ => panic!("expected a target response"),
    }

    match a.handle_request(SocksRequest::Data(vec![1, 2, 3, 4, 5])) {
        AgentAction::Send(f) => assert_eq!(f.request, ProxyTransfer::Data(vec![1, 2, 3, 4, 5])),
        _ => panic!("expected data to the back end"),
    }
    a.handle_request(SocksRequest::Data(vec![6]));
    assert_eq!(a.send_bytes, 6);

    match a.handle_response(ConnectorResponse::Data(vec![9; 10])) {
        AgentAction::Reply(SocksResponse::Data(d)) => assert_eq!(d, vec![9; 10]),
        _ => panic!("expected data to the client"),
    }
    assert_eq!(a.recv_bytes, 10);
    assert_eq!(a.send_bytes, 6);
    assert!(matches!(a.handle_response(ConnectorResponse::Abort), AgentAction::Stop));
}

#[test]
fn agent_reports_refusal() {
    let mut a = Agent::new(AgentType::Socks5, 2);
    let target = TargetRequest {
        version: 5,
        command: SocksRequestCommand::CONNECT,
        reserved: 0,
        request_type: SocksRequestType::DOMAIN,
        address: SocksAddr::DOMAIN("nowhere.invalid".to_string()),
        port: 443,
    };
    a.handle_request(SocksRequest::TargetRequest(target));
    match a.handle_response(ConnectorResponse::Failed) {
        AgentAction::Reply(SocksResponse::TargetResponse(t)) => {
            assert_eq!(t.response, TargetResponseType::ConnectionRefused);
            assert!(matches!(t.address, SocksAddr::DOMAIN(ref d) if d.is_empty()));
        }
        _ => panic!("expected a refusal"),
    }
    assert_eq!(a.recv_bytes, 0);
}

#[test]
fn agent_target_reaches_backend() {
    let mut a = Agent::new(AgentType::Socks5, 30);
    let target = TargetRequest {
        version: 5,
        command: SocksRequestCommand::CONNECT,
        reserved: 0,
        request_type: SocksRequestType::DOMAIN,
        address: SocksAddr::DOMAIN("example.net".to_string()),
        port: 8443,
    };
    let req = match a.handle_request(SocksRequest::TargetRequest(target)) {
        AgentAction::Send(req) => req,
        _ => panic!("expected an address request"),
    };
    assert!(is_handleable(&req, false));
    match handle_message(req, false) {
        BackendAction::Connect { uuid, host, port } => {
            assert_eq!((uuid, host.as_str(), port), (30, "example.net", 8443));
        }
        _ => panic!("expected a connection attempt"),
    }
    // An IPv6 target reaches the back end as its address and port.
    let v6 = TargetRequest {
        version: 5,
        command: SocksRequestCommand::CONNECT,
        reserved: 0,
        request_type: SocksRequestType::IpV6,
        address: SocksAddr::IPV6([0x20, 0x01, 0x0d, 0xb8, 0, 0, 0, 0, 0, 0, 0, 0, 0, 0, 0, 1]),
        port: 65535u16 as i16,
    };
    let mut c = Agent::new(AgentType::Socks5, 32);
    match c.handle_request(SocksRequest::TargetRequest(v6)) {
        AgentAction::Send(req) => match handle_message(req, false) {
            BackendAction::Connect { uuid, host, port } => {
                assert_eq!((uuid, host.as_str(), port), (32, "2001:db8::1", 65535));
            }
            _ => panic!("expected a connection attempt"),
        },
        _ => panic!("expected an address request"),
    }
    // A port above 32767 is carried as its unsigned value.
    let high = TargetRequest {
        version: 5,
        command: SocksRequestCommand::CONNECT,
        reserved: 0,
        request_type: SocksRequestType::IpV4,
        address: SocksAddr::IPV4([10, 0, 0, 1]),
        port: 40000u16 as i16,
    };
    let mut b = Agent::new(AgentType::Socks5, 31);
    match b.handle_request(SocksRequest::TargetRequest(high)) {
        AgentAction::Send(req) => {
            assert_eq!(req.request, ProxyTransfer::RequestAddr("10.0.0.1:40000".to_string()));
            assert!(is_handleable(&req, false));
        }
        _ => panic!("expected an address request"),
    }
}

#[test]
fn connection_table_steps() {
    let mut t: ConnectionTable<&str> = ConnectionTable::new();
    assert!(!t.is_open(5));
    // Data for a connection that is not open is not taken.
    assert!(t.frame_step(ProxyRequest::new(5, ProxyTransfer::Data(vec![1]))).is_none());
    let ok = t.established(5, "first");
    assert_eq!(ok.uuid, 5);
    assert_eq!(ok.response, ProxyTransfer::Response(ProxyResponseType::Succeeded));
    assert!(t.is_open(5));
    assert_eq!(t.writer(5), Some(&"first"));
    t.established(5, "second");
    assert_eq!(t.writer(5), Some(&"second"));
    t.established(6, "other");
    assert_eq!(t.writer(6), Some(&"other"));
    assert_eq!(t.writer(5), Some(&"second"));
    // Data read from an open connection's target goes out on its id.
    let back = t.target_data(6, vec![9, 8]).unwrap();
    assert_eq!(back.uuid, 6);
    assert_eq!(back.response, ProxyTransfer::Data(vec![9, 8]));
    assert!(t.target_data(7, vec![1]).is_none());
    match t.frame_step(ProxyRequest::new(5, ProxyTransfer::Data(vec![1, 2]))) {
        Some(BackendAction::Forward { uuid, data }) => {
            assert_eq!(uuid, 5);
            assert_eq!(data, vec![1, 2]);
        }
        _ => panic!("expected forwarding"),
    }
    t.write_failed(5);
    assert!(!t.is_open(5));
    assert!(t.target_data(5, vec![1]).is_none());
    assert!(t.is_open(6));
    let abort = t.died(6);
    assert_eq!(abort.response, ProxyTransfer::Response(ProxyResponseType::Abort));
    assert!(!t.is_open(6));
    assert!(t.writer(6).is_none());
    // Outcomes never travel to the back end.
    assert!(t.frame_step(ProxyRequest::new(6, ProxyTransfer::Response(ProxyResponseType::Succeeded))).is_none());
}

#[test]
fn agent_counts_all_traffic_it_handles() {
    let mut a = Agent::new(AgentType::Socks5, 40);
    let greeting = SocksRequest::Negotiation(MethodSelectionRequest { version: 5, n_methods: 1, methods: vec![0] });
    assert!(matches!(a.handle(AgentMessage::FromClient(greeting)), AgentAction::Reply(_)));
    let target = TargetRequest {
        version: 5,
        command: SocksRequestCommand::CONNECT,
        reserved: 0,
        request_type: SocksRequestType::DOMAIN,
        address: SocksAddr::DOMAIN("example.org".to_string()),
        port: 8080,
    };
    match a.handle(AgentMessage::FromClient(SocksRequest::TargetRequest(target))) {
        AgentAction::Send(f) => {
            assert_eq!(f.uuid, 40);
            assert_eq!(f.request, ProxyTransfer::RequestAddr("example.org:8080".to_string()));
        }
        _ => panic!("expected an address request"),
    }
    assert!(matches!(a.handle(AgentMessage::FromBackend(ConnectorResponse::Succeeded)), AgentAction::Reply(_)));
    for n in [3usize, 0, 7] {
        match a.handle(AgentMessage::FromClient(SocksRequest::Data(vec![1; n]))) {
            AgentAction::Send(f) => assert_eq!(f.request, ProxyTransfer::Data(vec![1; n])),
            _ => panic!("expected data to the back end"),
        }
    }
    for n in [5usize, 11] {
        match a.handle(AgentMessage::FromBackend(ConnectorResponse::Data(vec![2; n]))) {
            AgentAction::Reply(SocksResponse::Data(d)) => assert_eq!(d.len(), n),
            _ => panic!("expected data to the client"),
        }
    }
    assert_eq!(a.send_bytes, 10);
    assert_eq!(a.recv_bytes, 16);
    assert_eq!(a.target_address.as_deref(), Some("example.org:8080"));
    assert!(matches!(a.handle(AgentMessage::FromBackend(ConnectorResponse::Abort)), AgentAction::Stop));
    assert_eq!(a.send_bytes, 10);
    assert_eq!(a.recv_bytes, 16);
}

#[test]
fn front_end_finds_each_agent_by_port() {
    let mut f: FrontEndServer<&str, u8> = FrontEndServer::new();
    assert!(f.agent(1080).is_none());
    assert!(f.writer().is_none());
    f.connected(1080, "first");
    f.connected(2000, "second");
    assert_eq!(f.agent(1080), Some(&"first"));
    assert_eq!(f.agent(2000), Some(&"second"));
    assert!(f.agent(3000).is_none());
    f.connected(1080, "again");
    assert_eq!(f.agent(1080), Some(&"again"));
    f.tunnel_opened(7);
    assert_eq!(f.writer(), Some(&7));
    assert_eq!(f.agent(2000), Some(&"second"));
}
