use just_proxy_lib::plain::message::{
    can_decode, BytesCodec, ConnectorResponse, ProxyRequest, ProxyRequestCodec, ProxyResponse,
    ProxyResponseCodec, ProxyResponseType, ProxyTransfer,
};
use just_proxy_lib::plain::session::{
    handle_request, is_routable, resolve_response, route_response, uuid_is_nil, ClientAction,
    ResolveOutcome, ServerAction, SocksClient, SocksClientAction,
};
use just_proxy_lib::socks::message::{
    SocksAddr, SocksRequest, SocksRequestCommand, SocksRequestType, SocksResponse, TargetRequest,
    TargetResponseType,
};

const ID: [u8; 16] = [1, 2, 3, 4, 5, 6, 7, 8, 9, 10, 11, 12, 13, 14, 15, 16];

#[test]
fn plain_request_bytes() {
    let mut codec = ProxyRequestCodec;
    let mut dst = vec![0xee];
    codec.encode(ProxyRequest::new(ID, ProxyTransfer::RequestAddr("a.b:80".to_string())), &mut dst);
    let mut expected = vec![0xee];
    expected.extend_from_slice(&ID);
    expected.extend_from_slice(&[0, 0, 0, 6, 1]);
    expected.extend_from_slice(b"a.b:80");
    assert_eq!(dst, expected);

    let mut dst = Vec::new();
    codec.encode(ProxyRequest::new([0; 16], ProxyTransfer::Heartbeat), &mut dst);
    let mut expected = vec![0u8; 16];
    expected.extend_from_slice(&[0, 0, 0, 0, 3]);
    assert_eq!(dst, expected);
}

#[test]
fn plain_response_bytes() {
    let mut codec = ProxyResponseCodec;
    let mut dst = Vec::new();
    codec.encode(ProxyResponse::new(ID, ProxyTransfer::Response(ProxyResponseType::Timeout)), &mut dst);
    let mut expected = ID.to_vec();
    expected.extend_from_slice(&[0, 0, 0, 1, 2, 2]);
    assert_eq!(dst, expected);

    let mut dst = Vec::new();
    codec.encode(ProxyResponse::new(ID, ProxyTransfer::Data(vec![0xaa; 300])), &mut dst);
    assert_eq!(&dst[16..21], &[0, 0, 1, 0x2c, 0]);
    assert_eq!(dst.len(), 21 + 300);
}

#[test]
fn plain_frames_read_back_in_order() {
    let mut enc = ProxyResponseCodec;
    let mut wire = Vec::new();
    enc.encode(ProxyResponse::new(ID, ProxyTransfer::Data(b"abc".to_vec())), &mut wire);
    enc.encode(ProxyResponse::new([0; 16], ProxyTransfer::Heartbeat), &mut wire);
    enc.encode(ProxyResponse::new(ID, ProxyTransfer::Response(ProxyResponseType::Succeeded)), &mut wire);
    let mut dec = ProxyResponseCodec;
    assert!(can_decode(&wire));
    let first = dec.decode(&mut wire).unwrap();
    assert_eq!(first.uuid, ID);
    assert_eq!(first.response, ProxyTransfer::Data(b"abc".to_vec()));
    let second = dec.decode(&mut wire).unwrap();
    assert_eq!(second.response, ProxyTransfer::Heartbeat);
    let third = dec.decode(&mut wire).unwrap();
    assert_eq!(third.response, ProxyTransfer::Response(ProxyResponseType::Succeeded));
    assert!(wire.is_empty());
    assert!(dec.decode(&mut wire).is_none());
}

#[test]
fn plain_requests_read_back() {
    let mut codec = ProxyRequestCodec;
    let mut wire = Vec::new();
    codec.encode(ProxyRequest::new(ID, ProxyTransfer::RequestAddr("héllo:1".to_string())), &mut wire);
    let r = codec.decode(&mut wire).unwrap();
    assert_eq!(r.uuid, ID);
    assert_eq!(r.request, ProxyTransfer::RequestAddr("héllo:1".to_string()));
}

#[test]
fn partial_plain_frames_wait() {
    let mut codec = ProxyRequestCodec;
    let mut wire = Vec::new();
    codec.encode(ProxyRequest::new(ID, ProxyTransfer::Data(vec![5; 10])), &mut wire);
    let mut part = wire[..25].to_vec();
    assert!(can_decode(&part));
    assert!(codec.decode(&mut part).is_none());
    assert_eq!(part.len(), 25);
    let mut short = wire[..20].to_vec();
    assert!(codec.decode(&mut short).is_none());
    assert_eq!(short.len(), 20);
}

#[test]
fn unreadable_plain_frames_are_detected() {
    let mut bad_type = ID.to_vec();
    bad_type.extend_from_slice(&[0, 0, 0, 0, 4]);
    assert!(!can_decode(&bad_type));
    let mut bad_code = ID.to_vec();
    bad_code.extend_from_slice(&[0, 0, 0, 1, 2, 3]);
    assert!(!can_decode(&bad_code));
    let mut long_code = ID.to_vec();
    long_code.extend_from_slice(&[0, 0, 0, 2, 2, 0, 0]);
    assert!(!can_decode(&long_code));
    let mut bad_text = ID.to_vec();
    bad_text.extend_from_slice(&[0, 0, 0, 1, 1, 0xff]);
    assert!(!can_decode(&bad_text));
    let mut huge = ID.to_vec();
    huge.extend_from_slice(&[0xff, 0xff, 0xff, 0xff, 0]);
    assert!(!can_decode(&huge));
    assert!(can_decode(&Vec::new()));
}

#[test]
fn plain_bytes_codec() {
    let mut c = BytesCodec;
    let mut empty = Vec::new();
    assert!(c.decode(&mut empty).is_none());
    let mut buf = vec![1, 2, 3];
    assert_eq!(c.decode(&mut buf), Some(vec![1, 2, 3]));
    assert!(buf.is_empty());
}

#[test]
fn nil_ids() {
    assert!(uuid_is_nil(&[0; 16]));
    assert!(!uuid_is_nil(&ID));
    let mut last = [0u8; 16];
    last[15] = 1;
    assert!(!uuid_is_nil(&last));
}

#[test]
fn plain_client_routes_frames() {
    let hb = ProxyResponse::new([0; 16], ProxyTransfer::Heartbeat);
    assert!(is_routable(&hb));
    assert!(matches!(route_response(hb), ClientAction::HeartbeatAck));
    let d = ProxyResponse::new(ID, ProxyTransfer::Data(vec![4]));
    assert!(is_routable(&d));
    match route_response(d) {
        ClientAction::ToSocksClient(u, ConnectorResponse::Data(v)) => {
            assert_eq!(u, ID);
            assert_eq!(v, vec![4]);
        }
        _ => panic!("expected data"),
    }
    let t = ProxyResponse::new(ID, ProxyTransfer::Response(ProxyResponseType::Timeout));
    assert!(matches!(route_response(t), ClientAction::ToSocksClient(_, ConnectorResponse::Failed)));
    let s = ProxyResponse::new(ID, ProxyTransfer::Response(ProxyResponseType::Succeeded));
    assert!(matches!(route_response(s), ClientAction::ToSocksClient(_, ConnectorResponse::Succeeded)));
    assert!(!is_routable(&ProxyResponse::new(ID, ProxyTransfer::Heartbeat)));
    assert!(!is_routable(&ProxyResponse::new([0; 16], ProxyTransfer::Data(vec![]))));
}

#[test]
fn plain_server_steps() {
    match handle_request(ProxyRequest::new(ID, ProxyTransfer::RequestAddr("x:1".to_string())), false) {
        ServerAction::Connect { uuid, addr } => {
            assert_eq!(uuid, ID);
            assert_eq!(addr, "x:1");
        }
        _ => panic!("expected a connection"),
    }
    match handle_request(ProxyRequest::new(ID, ProxyTransfer::Data(vec![1, 2])), true) {
        ServerAction::Forward { uuid, data } => {
            assert_eq!(uuid, ID);
            assert_eq!(data, vec![1, 2]);
        }
        _ => panic!("expected forwarding"),
    }
    match handle_request(ProxyRequest::new([0; 16], ProxyTransfer::Heartbeat), false) {
        ServerAction::Reply(r) => {
            assert_eq!(r.uuid, [0; 16]);
            assert_eq!(r.response, ProxyTransfer::Heartbeat);
        }
        _ => panic!("expected an echo"),
    }
    let r = resolve_response(ID, ResolveOutcome::TimedOut);
    assert_eq!(r.response, ProxyTransfer::Response(ProxyResponseType::Timeout));
    let r = resolve_response(ID, ResolveOutcome::Failed);
    assert_eq!(r.response, ProxyTransfer::Response(ProxyResponseType::ConnectionRefused));
    let r = resolve_response(ID, ResolveOutcome::Established);
    assert_eq!(r.response, ProxyTransfer::Response(ProxyResponseType::Succeeded));
}

#[test]
fn plain_socks_client_counts_traffic() {
    let mut c = SocksClient::new(ID);
    let target = TargetRequest {
        version: 5,
        command: SocksRequestCommand::CONNECT,
        reserved: 0,
        request_type: SocksRequestType::DOMAIN,
        address: SocksAddr::DOMAIN("example.com".to_string()),
        port: 443,
    };
    match c.handle_request(SocksRequest::TargetRequest(target)) {
        SocksClientAction::Send(f) => {
            assert_eq!(f.uuid, ID);
            assert_eq!(f.request, ProxyTransfer::RequestAddr("example.com:443".to_string()));
        }
        _ => panic!("expected an address request"),
    }
    match c.handle_response(ConnectorResponse::Succeeded) {
        SocksClientAction::Reply(SocksResponse::TargetResponse(t)) => {
            assert_eq!(t.response, TargetResponseType::Succeeded)
        }
        _ => panic!("expected a target response"),
    }
    c.handle_request(SocksRequest::Data(vec![0; 7]));
    c.handle_response(ConnectorResponse::Data(vec![0; 3]));
    assert_eq!(c.send_bytes, 7);
    assert_eq!(c.recv_bytes, 3);
    assert_eq!(c.target_address.as_deref(), Some("example.com:443"));
}
