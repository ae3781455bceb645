use openconnect_cli::codec::{encode_request, encode_response, parse_request, parse_response};
use openconnect_cli::frame::{decode_frame, encode_frame};
use openconnect_cli::protocol::{IpInfo, JsonRequest, JsonResponse};

fn some(s: &str) -> Option<String> {
    Some(s.to_string())
}

fn sample_info() -> IpInfo {
    IpInfo {
        addr: some("10.0.0.2"),
        netmask: some("255.255.255.0"),
        addr6: None,
        netmask6: None,
        dns1: some("1.1.1.1"),
        dns2: None,
        dns3: None,
        nbns1: None,
        nbns2: None,
        nbns3: None,
        domain: some("corp.example"),
        proxy_pac: None,
        mtu: 1400,
        gateway_addr: some("10.0.0.1"),
    }
}

#[test]
fn frame_round_trip() {
    let payload: Vec<u8> = vec![1, 2, 3, 250, 0, 7];
    let mut framed = encode_frame(&payload);
    assert_eq!(&framed[..4], &[0, 0, 0, 6]);
    framed.push(0xee); // trailing bytes of a following frame are left alone
    let (decoded, consumed) = decode_frame(&framed).expect("one whole frame");
    assert_eq!(decoded, payload);
    assert_eq!(consumed, 10);
}

#[test]
fn frame_too_short_is_incomplete() {
    assert!(decode_frame(&vec![]).is_none());
    assert!(decode_frame(&vec![0, 0, 0]).is_none());
    // header promises 6 bytes, only 5 arrived so far
    assert!(decode_frame(&vec![0, 0, 0, 6, 1, 2, 3, 4, 5]).is_none());
}

#[test]
fn request_encodings_are_bare_variant_names() {
    assert_eq!(encode_request(&JsonRequest::Stop), b"\"Stop\"".to_vec());
    assert_eq!(encode_request(&JsonRequest::Info), b"\"Info\"".to_vec());
}

#[test]
fn request_round_trip() {
    for req in [JsonRequest::Stop, JsonRequest::Info] {
        let parsed = parse_request(&encode_request(&req)).expect("canonical request");
        assert_eq!(parsed, req);
    }
}

#[test]
fn request_rejects_noise() {
    assert!(parse_request(&b"\"Halt\"".to_vec()).is_none());
    assert!(parse_request(&b"Stop".to_vec()).is_none());
    assert!(parse_request(&vec![]).is_none());
}

#[test]
fn stop_response_encodes_as_tagged_object() {
    let resp = JsonResponse::StopResult { server_name: "work vpn".to_string() };
    let bytes = encode_response(&resp);
    assert_eq!(
        String::from_utf8(bytes).unwrap(),
        "{\"StopResult\":{\"server_name\":\"work vpn\"}}"
    );
}

#[test]
fn info_response_without_snapshot_encodes_null() {
    let resp = JsonResponse::InfoResult {
        server_name: "vpn".to_string(),
        server_url: "https://vpn.example".to_string(),
        hostname: "198.51.100.7".to_string(),
        status: "Connecting".to_string(),
        info: None,
    };
    let bytes = encode_response(&resp);
    assert_eq!(
        String::from_utf8(bytes).unwrap(),
        "{\"InfoResult\":{\"server_name\":\"vpn\",\"server_url\":\"https://vpn.example\",\
         \"hostname\":\"198.51.100.7\",\"status\":\"Connecting\",\"info\":null}}"
    );
}

#[test]
fn info_response_with_snapshot_encodes_fields() {
    let resp = JsonResponse::InfoResult {
        server_name: "vpn".to_string(),
        server_url: "u".to_string(),
        hostname: "h".to_string(),
        status: "Connected".to_string(),
        info: Some(sample_info()),
    };
    let text = String::from_utf8(encode_response(&resp)).unwrap();
    assert_eq!(
        text,
        "{\"InfoResult\":{\"server_name\":\"vpn\",\"server_url\":\"u\",\"hostname\":\"h\",\
         \"status\":\"Connected\",\"info\":{\"addr\":\"10.0.0.2\",\"netmask\":\"255.255.255.0\",\
         \"addr6\":null,\"netmask6\":null,\"dns\":[\"1.1.1.1\",null,null],\
         \"nbns\":[null,null,null],\"domain\":\"corp.example\",\"proxy_pac\":null,\
         \"mtu\":1400,\"gateway_addr\":\"10.0.0.1\"}}}"
    );
}

#[test]
fn stop_response_round_trip() {
    let resp = JsonResponse::StopResult { server_name: "a \"quoted\" \\ name".to_string() };
    let bytes = encode_response(&resp);
    match parse_response(&bytes) {
        Some(JsonResponse::StopResult { server_name }) => {
            assert_eq!(server_name, "a \"quoted\" \\ name");
        }
        _ => panic!("expected the stop response back"),
    }
}

#[test]
fn info_response_round_trip() {
    let resp = JsonResponse::InfoResult {
        server_name: "vpn\n1".to_string(), // control byte forces a hex escape
        server_url: "https://vpn.example/path".to_string(),
        hostname: "198.51.100.7".to_string(),
        status: "Connected".to_string(),
        info: Some(sample_info()),
    };
    let bytes = encode_response(&resp);
    match parse_response(&bytes) {
        Some(JsonResponse::InfoResult { server_name, server_url, hostname, status, info }) => {
            assert_eq!(server_name, "vpn\n1");
            assert_eq!(server_url, "https://vpn.example/path");
            assert_eq!(hostname, "198.51.100.7");
            assert_eq!(status, "Connected");
            let info = info.expect("snapshot present");
            assert_eq!(info.addr.as_deref(), Some("10.0.0.2"));
            assert_eq!(info.netmask.as_deref(), Some("255.255.255.0"));
            assert_eq!(info.addr6, None);
            assert_eq!(info.dns1.as_deref(), Some("1.1.1.1"));
            assert_eq!(info.dns2, None);
            assert_eq!(info.domain.as_deref(), Some("corp.example"));
            assert_eq!(info.mtu, 1400);
            assert_eq!(info.gateway_addr.as_deref(), Some("10.0.0.1"));
        }
        _ => panic!("expected the info response back"),
    }
}

#[test]
fn non_ascii_names_round_trip() {
    // multi-byte characters must survive the byte-level trip intact
    let resp = JsonResponse::StopResult { server_name: "büro — ネット".to_string() };
    let bytes = encode_response(&resp);
    match parse_response(&bytes) {
        Some(JsonResponse::StopResult { server_name }) => {
            assert_eq!(server_name, "büro — ネット");
        }
        _ => panic!("expected the stop response back"),
    }
}

#[test]
fn mtu_extremes_round_trip() {
    for mtu in [0u32, 9, 10, 65535, u32::MAX] {
        let resp = JsonResponse::InfoResult {
            server_name: String::new(),
            server_url: String::new(),
            hostname: String::new(),
            status: "Connected".to_string(),
            info: Some(IpInfo { mtu, ..sample_info() }),
        };
        let bytes = encode_response(&resp);
        match parse_response(&bytes) {
            Some(JsonResponse::InfoResult { info: Some(info), .. }) => assert_eq!(info.mtu, mtu),
            _ => panic!("expected the info response back"),
        }
    }
}

#[test]
fn response_parser_rejects_noise() {
    assert!(parse_response(&vec![]).is_none());
    assert!(parse_response(&b"{\"StopResult\":{\"server_name\":\"x\"}".to_vec()).is_none());
    assert!(parse_response(&b"{\"Other\":{}}".to_vec()).is_none());
    // trailing garbage after a well-formed response
    assert!(parse_response(&b"{\"StopResult\":{\"server_name\":\"x\"}}z".to_vec()).is_none());
    // a non-canonical number with a leading zero
    let text = "{\"InfoResult\":{\"server_name\":\"\",\"server_url\":\"\",\"hostname\":\"\",\
                \"status\":\"\",\"info\":{\"addr\":null,\"netmask\":null,\"addr6\":null,\
                \"netmask6\":null,\"dns\":[null,null,null],\"nbns\":[null,null,null],\
                \"domain\":null,\"proxy_pac\":null,\"mtu\":01,\"gateway_addr\":null}}}";
    assert!(parse_response(&text.as_bytes().to_vec()).is_none());
}

#[test]
fn response_parser_accepts_only_the_canonical_form() {
    // the encoder writes lower-case hex escapes and no whitespace; other
    // spellings of the same value are not canonical and are rejected
    assert!(parse_response(&b"{\"StopResult\":{\"server_name\":\"a\\u000Ab\"}}".to_vec())
        .is_none());
    assert!(parse_response(&b"{ \"StopResult\":{\"server_name\":\"x\"}}".to_vec()).is_none());
    // while the canonical spelling of the same name is accepted
    let ok = parse_response(&b"{\"StopResult\":{\"server_name\":\"a\\u000ab\"}}".to_vec());
    match ok {
        Some(JsonResponse::StopResult { server_name }) => assert_eq!(server_name, "a\nb"),
        _ => panic!("canonical escape must parse"),
    }
}

#[test]
fn framed_response_travels_whole() {
    let resp = JsonResponse::StopResult { server_name: "edge".to_string() };
    let payload = encode_response(&resp);
    let framed = encode_frame(&payload);
    let (recovered, consumed) = decode_frame(&framed).expect("whole frame");
    assert_eq!(consumed, framed.len());
    match parse_response(&recovered) {
        Some(JsonResponse::StopResult { server_name }) => assert_eq!(server_name, "edge"),
        _ => panic!("expected the stop response back"),
    }
}
