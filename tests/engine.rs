use revconn::error::{ConfigError, HandshakeError, ProtocolError};
use revconn::flow::{FlowAction, FlowHandler, StopReason};
use revconn::handshake::{accept_client_hello, accept_server_hello, client_hello, server_hello};
use revconn::keys::{key_and_nonce_from_base64, key_from_bytes, nonce_from_bytes};
use revconn::notify::{arm_shutdown_guard, conn_uid_from_bytes, new_conn_uid, new_connection_event, ConnectionIdentity};
use revconn::protocol::{ExternalMessage, Message};
use revconn::session::{AgentSession, Inbound, RendezvousSession};

fn close_id(m: &Message) -> Option<u32> {
    match m {
        Message::CloseConnection { id } => Some(*id),
        _ => None,
    }
}

#[test]
fn single_flow_small_payload() {
    // agent hello, rendezvous answer
    let hello = client_hello("example.test".to_string(), Some("/".to_string()));
    let (domain, path) = accept_client_hello(hello).unwrap();
    assert_eq!((domain.as_str(), path.as_str()), ("example.test", "/"));
    let answer = server_hello(domain, path);
    let (d, p) = accept_server_hello(answer).unwrap();
    assert_eq!((d.as_str(), p.as_str()), ("example.test", "/"));

    let mut rv: RendezvousSession<&'static str> = RendezvousSession::new();
    let mut ag: AgentSession<&'static str> = AgentSession::new();
    let newc = rv.accept_flow("rv-inbox-1").unwrap();
    assert!(matches!(newc, Message::NewConnection { id: 1 }));
    match ag.on_inbound(newc).unwrap() {
        Inbound::Open { id } => {
            assert_eq!(id, 1);
            ag.open_flow(id, "ag-inbox-1").unwrap();
        }
        _ => panic!("expected open"),
    }
    // external client sends "ping"
    let mut rv_flow = FlowHandler::new(1);
    let sent = match rv_flow.on_read(b"ping".to_vec()) {
        FlowAction::Send { message } => rv.on_egress(message).unwrap(),
        _ => panic!("expected send"),
    };
    match ag.on_inbound(sent).unwrap() {
        Inbound::Deliver { id, data } => {
            assert_eq!(id, 1);
            assert_eq!(data, b"ping".to_vec());
            assert_eq!(ag.inbox(id), Some(&"ag-inbox-1"));
            let mut ag_flow = FlowHandler::new(1);
            match ag_flow.on_inbox(Some(Message::Data { id, data })) {
                FlowAction::Write { data } => assert_eq!(data, b"ping".to_vec()),
                _ => panic!("expected write"),
            }
            // backend answers "pong", then EOF
            let pong = match ag_flow.on_read(b"pong".to_vec()) {
                FlowAction::Send { message } => ag.on_egress(message).unwrap(),
                _ => panic!("expected send"),
            };
            match rv.on_inbound(pong).unwrap() {
                Inbound::Deliver { id, data } => {
                    assert_eq!(id, 1);
                    assert_eq!(data, b"pong".to_vec());
                }
                _ => panic!("expected deliver"),
            }
            assert!(matches!(ag_flow.on_read(vec![]), FlowAction::Stop { reason: StopReason::SocketEof }));
            let close = ag_flow.teardown().unwrap();
            let close = ag.on_egress(close).unwrap();
            assert_eq!(close_id(&close), Some(1));
            assert_eq!(ag.flow_count(), 0);
            // the rendezvous releases the flow; its handler then closes once
            match rv.on_inbound(close).unwrap() {
                Inbound::Release { id, inbox } => {
                    assert_eq!(id, 1);
                    assert_eq!(inbox, Some("rv-inbox-1"));
                }
                _ => panic!("expected release"),
            }
            assert!(matches!(rv_flow.on_inbox(None), FlowAction::Stop { reason: StopReason::InboxClosed }));
            let c = rv_flow.teardown().unwrap();
            let c = rv.on_egress(c).unwrap();
            assert_eq!(close_id(&c), Some(1));
            assert_eq!(rv.flow_count(), 0);
        }
        _ => panic!("expected deliver"),
    }
}

#[test]
fn flow_ids_count_up_from_one() {
    let mut rv: RendezvousSession<u8> = RendezvousSession::new();
    for want in 1..=3u32 {
        let m = rv.accept_flow(want as u8).unwrap();
        assert!(matches!(m, Message::NewConnection { id } if id == want));
    }
    assert_eq!(rv.flow_count(), 3);
    assert_eq!(rv.inbox(2), Some(&2));
    rv.close_all();
    assert_eq!(rv.flow_count(), 0);
}

#[test]
fn peer_shutdown_stops_the_session() {
    let mut rv: RendezvousSession<u8> = RendezvousSession::new();
    match rv.on_inbound(Message::Shutdown { message: Some("bye".to_string()) }).unwrap() {
        Inbound::Stop { message } => assert_eq!(message, Some("bye".to_string())),
        _ => panic!("expected stop"),
    }
    let mut ag: AgentSession<u8> = AgentSession::new();
    assert!(matches!(ag.on_inbound(Message::Shutdown { message: None }), Ok(Inbound::Stop { message: None })));
}

#[test]
fn backend_refusal_sends_one_close() {
    let mut ag: AgentSession<u8> = AgentSession::new();
    match ag.on_inbound(Message::NewConnection { id: 4 }).unwrap() {
        Inbound::Open { id } => {
            let close = ag.refuse_flow(id);
            assert_eq!(close_id(&close), Some(4));
        }
        _ => panic!("expected open"),
    }
    assert_eq!(ag.flow_count(), 0);
    // the rendezvous, on that close, releases the external socket's inbox
    let mut rv: RendezvousSession<u8> = RendezvousSession::new();
    for _ in 0..4 {
        rv.accept_flow(0).unwrap();
    }
    assert!(matches!(rv.on_inbound(Message::CloseConnection { id: 4 }), Ok(Inbound::Release { id: 4, inbox: Some(0) })));
    assert_eq!(rv.flow_count(), 3);
}

#[test]
fn unknown_flows_and_unexpected_messages_are_protocol_errors() {
    let mut rv: RendezvousSession<u8> = RendezvousSession::new();
    assert_eq!(
        rv.on_inbound(Message::Data { id: 9, data: vec![1] }).err(),
        Some(ProtocolError::UnknownFlow { id: 9 })
    );
    assert_eq!(
        rv.on_inbound(Message::NewConnection { id: 1 }).err(),
        Some(ProtocolError::UnexpectedMessage { tag: 2 })
    );
    let mut ag: AgentSession<u8> = AgentSession::new();
    assert_eq!(
        ag.on_inbound(Message::Data { id: 9, data: vec![1] }).err(),
        Some(ProtocolError::UnknownFlow { id: 9 })
    );
    assert_eq!(
        ag.on_inbound(Message::ServerHello { domain: String::new(), path: String::new() }).err(),
        Some(ProtocolError::UnexpectedMessage { tag: 1 })
    );
    ag.open_flow(3, 0).unwrap();
    assert_eq!(ag.on_inbound(Message::NewConnection { id: 3 }).err(), Some(ProtocolError::DuplicateFlow { id: 3 }));
    assert_eq!(ag.open_flow(3, 1), Err(ProtocolError::DuplicateFlow { id: 3 }));
}

#[test]
fn close_from_both_sides_sends_one_close_per_side() {
    let mut rv: RendezvousSession<u8> = RendezvousSession::new();
    rv.accept_flow(0).unwrap();
    let mut h = FlowHandler::new(1);
    // the peer's close arrives first, releasing the entry
    assert!(matches!(rv.on_inbound(Message::CloseConnection { id: 1 }), Ok(Inbound::Release { id: 1, inbox: Some(0) })));
    // a second close from the peer is tolerated
    assert!(matches!(rv.on_inbound(Message::CloseConnection { id: 1 }), Ok(Inbound::Release { id: 1, inbox: None })));
    assert!(matches!(h.on_inbox(Some(Message::CloseConnection { id: 1 })), FlowAction::Stop { reason: StopReason::PeerClosed }));
    let c = h.teardown().unwrap();
    assert!(h.teardown().is_none());
    assert_eq!(close_id(&rv.on_egress(c).unwrap()), Some(1));
    // a repeated close from the same flow is not sent again
    assert!(rv.on_egress(Message::CloseConnection { id: 1 }).is_none());
}

#[test]
fn eof_yields_exactly_one_close() {
    let mut h = FlowHandler::new(5);
    assert!(matches!(h.on_read(vec![]), FlowAction::Stop { reason: StopReason::SocketEof }));
    assert!(matches!(h.on_read(vec![1]), FlowAction::Stop { reason: StopReason::Finished }));
    assert_eq!(close_id(&h.teardown().unwrap()), Some(5));
    assert!(h.teardown().is_none());
    assert!(h.teardown().is_none());
}

#[test]
fn empty_data_is_a_no_op_write() {
    let mut h = FlowHandler::new(2);
    match h.on_inbox(Some(Message::Data { id: 2, data: vec![] })) {
        FlowAction::Write { data } => assert!(data.is_empty()),
        _ => panic!("expected write"),
    }
    // the flow keeps running
    assert!(matches!(h.on_read(vec![7]), FlowAction::Send { message: Message::Data { id: 2, .. } }));
}

#[test]
fn flow_handler_stops_on_other_messages() {
    let mut h = FlowHandler::new(2);
    assert!(matches!(h.on_inbox(Some(Message::NewConnection { id: 2 })), FlowAction::Stop { reason: StopReason::Unexpected { tag: 2 } }));
    let mut h = FlowHandler::new(2);
    assert!(matches!(h.on_socket_error(), FlowAction::Stop { reason: StopReason::SocketError }));
    let mut h = FlowHandler::new(2);
    assert!(matches!(h.on_inbox(Some(Message::Shutdown { message: None })), FlowAction::Stop { reason: StopReason::PeerClosed }));
}

#[test]
fn handshake_refuses_other_first_frames() {
    assert_eq!(
        accept_client_hello(Message::NewConnection { id: 1 }).err(),
        Some(HandshakeError::ExpectedClientHello { tag: 2 })
    );
    assert_eq!(
        accept_server_hello(Message::Shutdown { message: None }).err(),
        Some(HandshakeError::ExpectedServerHello { tag: 5 })
    );
    let (d, p) = accept_client_hello(Message::ClientHello { domain: "d".to_string(), path: None }).unwrap();
    assert_eq!((d.as_str(), p.as_str()), ("d", ""));
}

#[test]
fn keys_from_base64() {
    let (k, n) = key_and_nonce_from_base64(
        "rPc0ATOUqsySPNoWtwa10+fSzLSNOq1vRJqz9qK0Aag=",
        "uUXAxcAFLg+tLQsG",
    )
    .unwrap();
    assert_eq!(&k[..4], &[0xac, 0xf7, 0x34, 0x01]);
    assert_eq!(&n[..3], &[0xb9, 0x45, 0xc0]);
    assert_eq!(key_and_nonce_from_base64("!!", "uUXAxcAFLg+tLQsG"), Err(ConfigError::KeyNotBase64));
    assert_eq!(key_and_nonce_from_base64("AAAA", "uUXAxcAFLg+tLQsG"), Err(ConfigError::KeyTooShort));
    assert_eq!(
        key_and_nonce_from_base64("rPc0ATOUqsySPNoWtwa10+fSzLSNOq1vRJqz9qK0Aag=", "!"),
        Err(ConfigError::NonceNotBase64)
    );
    assert_eq!(
        key_and_nonce_from_base64("rPc0ATOUqsySPNoWtwa10+fSzLSNOq1vRJqz9qK0Aag=", "AAAA"),
        Err(ConfigError::NonceTooShort)
    );
    let long: Vec<u8> = (0..40u8).collect();
    assert_eq!(key_from_bytes(&long).unwrap().to_vec(), (0..32u8).collect::<Vec<u8>>());
    assert_eq!(nonce_from_bytes(&long).unwrap().to_vec(), (0..12u8).collect::<Vec<u8>>());
}

#[test]
fn connection_uid_shape() {
    let b: [u8; 16] = [0x00, 0x01, 0xab, 0xff, 0, 0, 0x4c, 0, 0x9a, 0, 0, 0, 0, 0, 0, 0x10];
    assert_eq!(conn_uid_from_bytes(&b), "conn-0001abff00004c009a00000000000010");
    let u = new_conn_uid();
    assert_eq!(u.len(), 37);
    assert!(u.starts_with("conn-"));
    assert_eq!(&u[17..18], "4");
}

#[test]
fn shutdown_notice_only_after_a_successful_post() {
    let id = ConnectionIdentity { conn_id: "conn-x".to_string(), domain: "d".to_string(), path: "/".to_string(), port: 8002 };
    match new_connection_event(&id) {
        ExternalMessage::NewConnection { conn_id, port, .. } => {
            assert_eq!(conn_id, "conn-x");
            assert_eq!(port, 8002);
        }
        _ => panic!("expected new connection"),
    }
    let id2 = ConnectionIdentity { conn_id: "conn-x".to_string(), domain: "d".to_string(), path: "/".to_string(), port: 8002 };
    assert!(arm_shutdown_guard("http://cb".to_string(), id2, false).is_none());
    let g = arm_shutdown_guard("http://cb".to_string(), id, true).unwrap();
    assert_eq!(g.callback, "http://cb");
    match g.event() {
        ExternalMessage::ShutdownConnection { conn_id, domain, path, port } => {
            assert_eq!((conn_id.as_str(), domain.as_str(), path.as_str(), port), ("conn-x", "d", "/", 8002));
        }
        _ => panic!("expected shutdown"),
    }
}

#[test]
fn a_full_read_buffer_goes_out_as_one_data_message() {
    let mut h = FlowHandler::new(6);
    let chunk = vec![0xa5u8; revconn::flow::READ_BUF_LEN];
    match h.on_read(chunk.clone()) {
        FlowAction::Send { message: Message::Data { id, data } } => {
            assert_eq!(id, 6);
            assert_eq!(data, chunk);
        }
        _ => panic!("expected data"),
    }
}
