use just_proxy_lib::socks::codec::{Socks5RequestCodec, Socks5RequestCodecState, Socks5ResponseCodec};
use just_proxy_lib::socks::message::{
    MethodSelectionResponse, SocksAddr, SocksRequest, SocksRequestCommand, SocksRequestType,
    SocksResponse, TargetRequest, TargetResponse, TargetResponseType,
};

fn target(address: SocksAddr, port: i16) -> TargetRequest {
    TargetRequest {
        version: 5,
        command: SocksRequestCommand::CONNECT,
        reserved: 0,
        request_type: SocksRequestType::DOMAIN,
        address,
        port,
    }
}

#[test]
fn address_string_of_domain() {
    let t = target(SocksAddr::DOMAIN("example.com".to_string()), 80);
    assert_eq!(t.to_addressstring(), "example.com:80");
}

#[test]
fn address_string_of_ipv4() {
    let t = target(SocksAddr::IPV4([127, 0, 0, 1]), 8080);
    assert_eq!(t.to_addressstring(), "127.0.0.1:8080");
    let t = target(SocksAddr::IPV4([10, 200, 3, 255]), 0);
    assert_eq!(t.to_addressstring(), "10.200.3.255:0");
}

#[test]
fn address_string_port_is_unsigned() {
    // The two port bytes are an unsigned number, whatever the stored sign.
    let t = target(SocksAddr::DOMAIN("example.com".to_string()), -1);
    assert_eq!(t.to_addressstring(), "example.com:65535");
    let t = target(SocksAddr::DOMAIN("h".to_string()), i16::MIN);
    assert_eq!(t.to_addressstring(), "h:32768");
    let t = target(SocksAddr::IPV4([10, 0, 0, 1]), 40000u16 as i16);
    assert_eq!(t.to_addressstring(), "10.0.0.1:40000");
}

#[test]
fn address_string_of_ipv6() {
    let mut loopback = [0u8; 16];
    loopback[15] = 1;
    assert_eq!(target(SocksAddr::IPV6(loopback), 443).to_addressstring(), "[::1]:443");
    assert_eq!(target(SocksAddr::IPV6([0u8; 16]), 1).to_addressstring(), "[::]:1");
    let doc = [0x20, 0x01, 0x0d, 0xb8, 0, 0, 0, 0, 0, 0, 0, 0, 0, 0, 0, 1];
    assert_eq!(target(SocksAddr::IPV6(doc), 22).to_addressstring(), "[2001:db8::1]:22");
    // A single zero group is not shortened; the first of two equal runs is.
    let one_zero = [0, 1, 0, 0, 0, 2, 0, 3, 0, 4, 0, 5, 0, 6, 0, 7];
    assert_eq!(target(SocksAddr::IPV6(one_zero), 9).to_addressstring(), "[1:0:2:3:4:5:6:7]:9");
    let two_runs = [0, 1, 0, 0, 0, 0, 0, 2, 0, 3, 0, 0, 0, 0, 0, 4];
    assert_eq!(target(SocksAddr::IPV6(two_runs), 9).to_addressstring(), "[1::2:3:0:0:4]:9");
    let mapped = [0, 0, 0, 0, 0, 0, 0, 0, 0, 0, 0xff, 0xff, 192, 168, 1, 2];
    assert_eq!(target(SocksAddr::IPV6(mapped), 5).to_addressstring(), "[::ffff:192.168.1.2]:5");
    let full = [0xfe, 0x80, 0x12, 0x34, 0xab, 0xcd, 0, 0x0f, 0x10, 0, 0, 0x01, 0xff, 0xff, 0, 0x1a];
    assert_eq!(
        target(SocksAddr::IPV6(full), 65535u16 as i16).to_addressstring(),
        "[fe80:1234:abcd:f:1000:1:ffff:1a]:65535"
    );
    assert_eq!(target(SocksAddr::IPV6(doc), -2).to_addressstring(), "[2001:db8::1]:65534");
}

#[test]
fn greeting_then_target_then_data() {
    let mut codec = Socks5RequestCodec::new();
    assert_eq!(codec.state(), Socks5RequestCodecState::NEGOTIATION);
    let mut buf = vec![5u8, 2];
    assert!(codec.decode(&mut buf).is_none());
    buf.extend_from_slice(&[0, 1, 9]);
    match codec.decode(&mut buf) {
        Some(SocksRequest::Negotiation(m)) => {
            assert_eq!(m.version, 5);
            assert_eq!(m.n_methods, 2);
            assert_eq!(m.methods, vec![0, 1]);
        }
        _ => panic!("expected a greeting"),
    }
    assert_eq!(buf, vec![9]);
    assert_eq!(codec.state(), Socks5RequestCodecState::WORKING);

    let mut buf = vec![5u8, 1, 0, 3, 11];
    buf.extend_from_slice(b"example.com");
    assert!(codec.can_decode(&buf));
    assert!(codec.decode(&mut buf).is_none());
    buf.extend_from_slice(&[0x01, 0xbb, 42]);
    match codec.decode(&mut buf) {
        Some(SocksRequest::TargetRequest(t)) => {
            assert_eq!(t.version, 5);
            assert_eq!(t.command, SocksRequestCommand::CONNECT);
            assert_eq!(t.request_type, SocksRequestType::DOMAIN);
            assert_eq!(t.port, 443);
            assert_eq!(t.to_addressstring(), "example.com:443");
        }
        _ => panic!("expected a target request"),
    }
    assert_eq!(buf, vec![42]);
    assert_eq!(codec.state(), Socks5RequestCodecState::READY);
    match codec.decode(&mut buf) {
        Some(SocksRequest::Data(d)) => assert_eq!(d, vec![42]),
        _ => panic!("expected data"),
    }
    assert!(buf.is_empty());
    assert!(codec.decode(&mut buf).is_none());
}

#[test]
fn target_requests_of_each_address_type() {
    let mut codec = Socks5RequestCodec::new();
    let mut buf = vec![5u8, 0];
    assert!(codec.decode(&mut buf).is_some());
    let mut buf = vec![7u8, 2, 9, 1, 10, 0, 0, 1, 0xff, 0xff];
    match codec.decode(&mut buf) {
        Some(SocksRequest::TargetRequest(t)) => {
            // Version and reserved byte are recorded as 5 and 0.
            assert_eq!(t.version, 5);
            assert_eq!(t.reserved, 0);
            assert_eq!(t.command, SocksRequestCommand::BIND);
            assert_eq!(t.port, -1);
            assert_eq!(t.to_addressstring(), "10.0.0.1:65535");
        }
        _ => panic!("expected a target request"),
    }
    let mut codec = Socks5RequestCodec::new();
    let mut buf = vec![5u8, 0];
    assert!(codec.decode(&mut buf).is_some());
    let mut buf = vec![5u8, 3, 0, 4];
    buf.extend_from_slice(&[0u8; 15]);
    buf.push(1);
    buf.extend_from_slice(&[0, 80]);
    match codec.decode(&mut buf) {
        Some(SocksRequest::TargetRequest(t)) => {
            assert_eq!(t.command, SocksRequestCommand::UdpAssociate);
            assert_eq!(t.request_type, SocksRequestType::IpV6);
            assert_eq!(t.to_addressstring(), "[::1]:80");
        }
        _ => panic!("expected a target request"),
    }
}

#[test]
fn unreadable_target_requests_are_detected() {
    let mut codec = Socks5RequestCodec::new();
    let mut buf = vec![5u8, 0];
    assert!(codec.decode(&mut buf).is_some());
    assert!(!codec.can_decode(&vec![5, 1, 0, 2, 0]));
    assert!(!codec.can_decode(&vec![5, 9, 0, 1, 1, 2, 3, 4, 0, 80]));
    assert!(!codec.can_decode(&vec![5, 1, 0, 3, 1, 0xff, 0, 80]));
    assert!(codec.can_decode(&vec![5, 9, 0, 1, 1]));
}

#[test]
fn long_greeting_buffers_are_read() {
    let mut codec = Socks5RequestCodec::new();
    // Five methods need seven bytes; a longer buffer holds the greeting too.
    let mut buf = vec![5u8, 5];
    buf.extend_from_slice(&[0u8; 256]);
    match codec.decode(&mut buf) {
        Some(SocksRequest::Negotiation(m)) => assert_eq!(m.methods, vec![0; 5]),
        _ => panic!("expected a greeting"),
    }
    assert_eq!(buf.len(), 251);
    assert_eq!(codec.state(), Socks5RequestCodecState::WORKING);
    let mut codec = Socks5RequestCodec::new();
    let mut short = vec![5u8, 3, 0, 1];
    assert!(codec.decode(&mut short).is_none());
    assert_eq!(short.len(), 4);
}

#[test]
fn responses_are_written() {
    let mut codec = Socks5ResponseCodec;
    let mut out = vec![1u8];
    codec.encode(SocksResponse::Negotiation(MethodSelectionResponse { version: 5, method: 0 }), &mut out);
    assert_eq!(out, vec![1, 5, 0]);
    let mut out = Vec::new();
    codec.encode(
        SocksResponse::TargetResponse(TargetResponse {
            version: 4,
            response: TargetResponseType::ConnectionRefused,
            reserved: 7,
            response_type: SocksRequestType::DOMAIN,
            address: SocksAddr::DOMAIN("123".to_string()),
            port: 0x0102,
        }),
        &mut out,
    );
    assert_eq!(out, vec![5, 5, 0, 3, 3, b'1', b'2', b'3', 1, 2]);
    let mut out = Vec::new();
    codec.encode(
        SocksResponse::TargetResponse(TargetResponse {
            version: 5,
            response: TargetResponseType::Succeeded,
            reserved: 0,
            response_type: SocksRequestType::IpV4,
            address: SocksAddr::IPV4([1, 2, 3, 4]),
            port: -1,
        }),
        &mut out,
    );
    assert_eq!(out, vec![5, 0, 0, 1, 1, 2, 3, 4, 0xff, 0xff]);
    let mut out = Vec::new();
    codec.encode(
        SocksResponse::TargetResponse(TargetResponse {
            version: 5,
            response: TargetResponseType::ConnectionRefused,
            reserved: 0,
            response_type: SocksRequestType::IpV4,
            address: SocksAddr::IPV4([10, 0, 0, 1]),
            port: 1080,
        }),
        &mut out,
    );
    assert_eq!(out, vec![5, 5, 0, 1, 10, 0, 0, 1, 4, 56]);
    let mut out = Vec::new();
    codec.encode(SocksResponse::Data(vec![9, 8]), &mut out);
    assert_eq!(out, vec![9, 8]);
}

#[test]
fn reply_codes() {
    assert_eq!(TargetResponseType::Succeeded.code(), 0);
    assert_eq!(TargetResponseType::ConnectionRefused.code(), 5);
    assert_eq!(TargetResponseType::Unassigned.code(), 9);
}
