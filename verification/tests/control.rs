use openconnect_cli::codec::{encode_request, parse_response};
use openconnect_cli::daemon::{
    role_action, serve_payload, DaemonMachine, DaemonPhase, DaemonRole, RoleAction,
    ShutdownTrigger,
};
use openconnect_cli::protocol::{ConnectionStatus, IpInfo, JsonRequest, JsonResponse};
use openconnect_cli::session::{connect_params, Profile, Session, StatusReport};
use openconnect_cli::sock::{connect_precheck, get_sock, start_precheck, SockError};
use openconnect_cli::protocol::status_label;

fn session() -> Session {
    Session {
        server_name: Some("work".to_string()),
        server_url: Some("https://vpn.example".to_string()),
        hostname: Some("198.51.100.7".to_string()),
    }
}

fn report(status: ConnectionStatus) -> StatusReport {
    StatusReport { status, info: None }
}

#[test]
fn sock_path_is_fixed() {
    assert_eq!(get_sock(), "/tmp/openconnect-rs.sock");
}

#[test]
fn status_labels() {
    assert_eq!(status_label(ConnectionStatus::Initialized), "Initialized");
    assert_eq!(status_label(ConnectionStatus::Connecting), "Connecting");
    assert_eq!(status_label(ConnectionStatus::Connected), "Connected");
    assert_eq!(status_label(ConnectionStatus::Disconnecting), "Disconnecting");
    assert_eq!(status_label(ConnectionStatus::Disconnected), "Disconnected");
    assert_eq!(status_label(ConnectionStatus::Error), "Error");
}

#[test]
fn client_connect_fails_fast_when_no_daemon_runs() {
    // daemon not started: no rendezvous path, no I/O is attempted
    assert_eq!(connect_precheck(false), Err(SockError::NoValidConnection));
    assert_eq!(connect_precheck(true), Ok(()));
}

#[test]
fn binding_fails_closed_when_rendezvous_exists() {
    let mut m = DaemonMachine::new();
    assert_eq!(m.bind_channel(true), Err(SockError::AlreadyExists));
    assert_eq!(m.phase, DaemonPhase::Starting);
    assert!(!m.rendezvous_exists);
    // and succeeds exactly when the path is free
    assert_eq!(m.bind_channel(false), Ok(()));
    assert!(m.rendezvous_exists);
}

#[test]
fn interrupt_and_stop_produce_the_same_cleanup() {
    let mut by_signal = DaemonMachine::new();
    assert_eq!(by_signal.bind_channel(false), Ok(()));
    by_signal.start_running();
    by_signal.on_shutdown_trigger(ShutdownTrigger::Interrupt);
    by_signal.cleanup();

    let mut by_stop = DaemonMachine::new();
    assert_eq!(by_stop.bind_channel(false), Ok(()));
    by_stop.start_running();
    by_stop.on_shutdown_trigger(ShutdownTrigger::StopRequest);
    by_stop.cleanup();

    assert_eq!(by_signal, by_stop);
    assert_eq!(by_signal.phase, DaemonPhase::Exited);
    assert!(!by_signal.rendezvous_exists);
}

#[test]
fn rendezvous_is_gone_after_normal_termination() {
    for trigger in [
        ShutdownTrigger::Interrupt,
        ShutdownTrigger::Terminate,
        ShutdownTrigger::Quit,
        ShutdownTrigger::StopRequest,
    ] {
        let mut m = DaemonMachine::new();
        assert_eq!(m.bind_channel(false), Ok(()));
        m.start_running();
        m.on_shutdown_trigger(trigger);
        m.cleanup();
        assert_eq!(m.phase, DaemonPhase::Exited);
        assert!(!m.rendezvous_exists);
    }
}

#[test]
fn stop_yields_one_result_and_ends_request_processing() {
    let mut m = DaemonMachine::new();
    assert_eq!(m.bind_channel(false), Ok(()));
    m.start_running();
    let s = session();
    let rep = report(ConnectionStatus::Connected);
    let reply = m.process_request(&s, JsonRequest::Stop, &rep);
    assert!(reply.shutdown);
    match reply.response {
        JsonResponse::StopResult { server_name } => assert_eq!(server_name, "work"),
        _ => panic!("a stop request is owed a StopResult"),
    }
    // no second request is processed afterwards
    assert_eq!(m.phase, DaemonPhase::Terminating);
}

#[test]
fn info_leaves_the_machine_running() {
    let mut m = DaemonMachine::new();
    assert_eq!(m.bind_channel(false), Ok(()));
    m.start_running();
    let s = session();
    let rep = report(ConnectionStatus::Connected);
    let reply = m.process_request(&s, JsonRequest::Info, &rep);
    assert!(!reply.shutdown);
    assert_eq!(m.phase, DaemonPhase::Running);
}

#[test]
fn stop_while_connecting_still_returns_stop_result() {
    let s = session();
    let rep = report(ConnectionStatus::Connecting);
    let reply = s.handle_request(JsonRequest::Stop, &rep);
    assert!(reply.shutdown);
    match reply.response {
        JsonResponse::StopResult { server_name } => assert_eq!(server_name, "work"),
        _ => panic!("a stop request is owed a StopResult"),
    }
}

#[test]
fn two_concurrent_info_reads_are_identical() {
    let s = session();
    let snapshot = IpInfo {
        addr: Some("10.0.0.2".to_string()),
        netmask: Some("255.255.255.0".to_string()),
        addr6: None,
        netmask6: None,
        dns1: Some("1.1.1.1".to_string()),
        dns2: None,
        dns3: None,
        nbns1: None,
        nbns2: None,
        nbns3: None,
        domain: None,
        proxy_pac: None,
        mtu: 1400,
        gateway_addr: Some("10.0.0.1".to_string()),
    };
    let rep1 = StatusReport { status: ConnectionStatus::Connected, info: Some(snapshot.clone()) };
    let rep2 = StatusReport { status: ConnectionStatus::Connected, info: Some(snapshot) };
    let a = s.handle_request(JsonRequest::Info, &rep1);
    let b = s.handle_request(JsonRequest::Info, &rep2);
    match (a.response, b.response) {
        (
            JsonResponse::InfoResult {
                server_name: n1,
                server_url: u1,
                hostname: h1,
                status: st1,
                info: i1,
            },
            JsonResponse::InfoResult {
                server_name: n2,
                server_url: u2,
                hostname: h2,
                status: st2,
                info: i2,
            },
        ) => {
            assert_eq!(n1, n2);
            assert_eq!(u1, u2);
            assert_eq!(h1, h2);
            assert_eq!(st1, "Connected");
            assert_eq!(st2, "Connected");
            let (i1, i2) = (i1.unwrap(), i2.unwrap());
            assert_eq!(i1.addr, i2.addr);
            assert_eq!(i1.dns1, i2.dns1);
            assert_eq!(i1.mtu, i2.mtu);
            assert_eq!(i1.gateway_addr, i2.gateway_addr);
        }
        _ => panic!("an info request is owed an InfoResult"),
    }
}

#[test]
fn identity_reads_are_stable_across_engine_states() {
    let s = session();
    let a = s.handle_request(JsonRequest::Info, &report(ConnectionStatus::Connecting));
    let b = s.handle_request(JsonRequest::Info, &report(ConnectionStatus::Connected));
    match (a.response, b.response) {
        (
            JsonResponse::InfoResult { server_name: n1, server_url: u1, hostname: h1, .. },
            JsonResponse::InfoResult { server_name: n2, server_url: u2, hostname: h2, .. },
        ) => {
            assert_eq!(n1, n2);
            assert_eq!(u1, u2);
            assert_eq!(h1, h2);
        }
        _ => panic!("an info request is owed an InfoResult"),
    }
}

#[test]
fn absent_fields_are_empty_never_placeholders() {
    let s = Session { server_name: None, server_url: None, hostname: None };
    let reply = s.handle_request(JsonRequest::Info, &report(ConnectionStatus::Initialized));
    match reply.response {
        JsonResponse::InfoResult { server_name, server_url, hostname, status, info } => {
            assert_eq!(server_name, "");
            assert_eq!(server_url, "");
            assert_eq!(hostname, "");
            assert_eq!(status, "Initialized");
            assert!(info.is_none());
        }
        _ => panic!("an info request is owed an InfoResult"),
    }
}

#[test]
fn connect_params_settle_absent_profile_fields() {
    let p = Profile {
        name: "work".to_string(),
        server: "vpn.example".to_string(),
        username: "alex".to_string(),
        password: None,
        allow_insecure: None,
    };
    let c = connect_params(&p);
    assert_eq!(c.name, "work");
    assert_eq!(c.server, "vpn.example");
    assert_eq!(c.username, "alex");
    assert_eq!(c.password, "");
    assert!(!c.accept_insecure_cert);
    assert!(c.enable_udp);

    let p2 = Profile {
        password: Some("pw123".to_string()),
        allow_insecure: Some(true),
        ..p
    };
    let c2 = connect_params(&p2);
    assert_eq!(c2.password, "pw123");
    assert!(c2.accept_insecure_cert);
}

#[test]
fn serve_payload_answers_bytes_with_bytes() {
    let mut m = DaemonMachine::new();
    assert_eq!(m.bind_channel(false), Ok(()));
    m.start_running();
    let s = session();
    let rep = report(ConnectionStatus::Connected);

    // noise gets no response and changes nothing
    assert!(serve_payload(&mut m, &s, &rep, &b"hello".to_vec()).is_none());
    assert_eq!(m.phase, DaemonPhase::Running);

    // an info payload is answered and leaves the loop running
    let (bytes, stop) =
        serve_payload(&mut m, &s, &rep, &encode_request(&JsonRequest::Info)).expect("a response");
    assert!(!stop);
    assert_eq!(m.phase, DaemonPhase::Running);
    match parse_response(&bytes) {
        Some(JsonResponse::InfoResult { server_name, status, .. }) => {
            assert_eq!(server_name, "work");
            assert_eq!(status, "Connected");
        }
        _ => panic!("an info request is owed an InfoResult"),
    }

    // a stop payload is answered and ends request processing
    let (bytes, stop) =
        serve_payload(&mut m, &s, &rep, &encode_request(&JsonRequest::Stop)).expect("a response");
    assert!(stop);
    assert_eq!(m.phase, DaemonPhase::Terminating);
    match parse_response(&bytes) {
        Some(JsonResponse::StopResult { server_name }) => assert_eq!(server_name, "work"),
        _ => panic!("a stop request is owed a StopResult"),
    }
}

#[test]
fn start_precheck_fails_closed_on_existing_rendezvous() {
    assert_eq!(start_precheck(true), Err(SockError::AlreadyExists));
    assert_eq!(start_precheck(false), Ok(()));
}

#[test]
fn only_the_worker_proceeds_after_detachment() {
    assert_eq!(role_action(DaemonRole::Originator), RoleAction::ConfirmAndExit);
    assert_eq!(role_action(DaemonRole::Intermediate), RoleAction::ExitQuietly);
    assert_eq!(role_action(DaemonRole::Worker), RoleAction::Proceed);
}
