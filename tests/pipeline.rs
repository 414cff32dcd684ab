use revconn::channel::{Opener, Sealer};
use revconn::flow::{FlowAction, FlowHandler};
use revconn::protocol::Message;
use revconn::session::{AgentSession, Inbound, RendezvousSession};

fn pseudo_random(seed: u32, len: usize) -> Vec<u8> {
    let mut x = seed.wrapping_mul(2654435761).wrapping_add(1);
    (0..len)
        .map(|_| {
            x ^= x << 13;
            x ^= x >> 17;
            x ^= x << 5;
            (x >> 24) as u8
        })
        .collect()
}

#[test]
fn three_flows_of_one_mebibyte_arrive_intact() {
    let key = [0x42u8; 32];
    let nonce = [0x24u8; 12];
    let mut rv: RendezvousSession<usize> = RendezvousSession::new();
    let mut ag: AgentSession<usize> = AgentSession::new();
    let mut sealer = Sealer::new(key, nonce);
    let mut opener = Opener::new(key, nonce);

    let mut near: Vec<FlowHandler> = Vec::new();
    let mut far: Vec<FlowHandler> = Vec::new();
    for i in 0..3usize {
        let announce = rv.accept_flow(i).unwrap();
        let id = match &announce {
            Message::NewConnection { id } => *id,
            _ => panic!("expected new connection"),
        };
        assert_eq!(id as usize, i + 1);
        match ag.on_inbound(announce).unwrap() {
            Inbound::Open { id } => ag.open_flow(id, i).unwrap(),
            _ => panic!("expected open"),
        }
        near.push(FlowHandler::new(id));
        far.push(FlowHandler::new(id));
    }

    let inputs: Vec<Vec<u8>> = (0..3).map(|i| pseudo_random(i as u32 + 1, 1 << 20)).collect();
    let mut outputs: Vec<Vec<u8>> = vec![Vec::new(), Vec::new(), Vec::new()];
    let mut wire = Vec::new();
    // interleave reads of the three sockets, 8 KiB at a time
    for off in (0..(1usize << 20)).step_by(8192) {
        for i in 0..3 {
            let chunk = inputs[i][off..off + 8192].to_vec();
            match near[i].on_read(chunk) {
                FlowAction::Send { message } => {
                    let out = rv.on_egress(message).unwrap();
                    wire.extend_from_slice(&sealer.seal(&out).unwrap());
                }
                _ => panic!("expected send"),
            }
        }
    }
    for chunk in wire.chunks(10007) {
        opener.feed(chunk.to_vec()).unwrap();
        while let Some(m) = opener.next_message().unwrap() {
            match ag.on_inbound(m).unwrap() {
                Inbound::Deliver { id, data } => {
                    let slot = *ag.inbox(id).unwrap();
                    match far[slot].on_inbox(Some(Message::Data { id, data })) {
                        FlowAction::Write { data } => outputs[slot].extend_from_slice(&data),
                        _ => panic!("expected write"),
                    }
                }
                _ => panic!("expected deliver"),
            }
        }
    }
    for i in 0..3 {
        assert_eq!(outputs[i], inputs[i]);
    }
}
