use domain::base::iana::{Rcode, Rtype};
use domain::base::{Dname, Message, MessageBuilder, Ttl};
use domain::rdata::A;

use meshdns::endpoint::{mesh_endpoint, Endpoint};
use meshdns::expiring::{ExpiringMap, ExpiringSet};
use meshdns::mesh::{
    dispatch_ret, mesh_inbound_endpoint, mesh_inbound_server, mesh_outbound_endpoint,
    mesh_outbound_server, Dispatch, MeshInAction,
};
use meshdns::message::parse_message;
use meshdns::resolve::{
    process_query_endpoint, process_resume, process_step, ContainerInfo, ContainerLabel, HostEnv,
    Ret, StepResult,
};
use meshdns::upstream::pick_upstream_server;

fn build_query(id: u16, name: &str) -> Vec<u8> {
    let mut mb = MessageBuilder::new_vec().question();
    mb.header_mut().set_id(id);
    let dname: Dname<Vec<u8>> = name.parse().unwrap();
    mb.push((&dname, Rtype::A)).unwrap();
    mb.into_message().into_octets()
}

fn build_mesh_reply(query: &[u8], addr: [u8; 4]) -> Vec<u8> {
    let msg = Message::from_octets(query.to_vec()).unwrap();
    let mut ans = MessageBuilder::new_vec()
        .start_answer(&msg, Rcode::NoError)
        .unwrap();
    let q = msg.question().next().unwrap().unwrap();
    let name: Dname<Vec<u8>> = q.qname().to_string().parse().unwrap();
    ans.push((
        name,
        domain::base::iana::Class::In,
        Ttl::from_secs(1),
        A::from_octets(addr[0], addr[1], addr[2], addr[3]),
    ))
    .unwrap();
    ans.into_message().into_octets()
}

fn env(host: &str, ip: [u8; 4], domain: &str, containers: Vec<ContainerInfo>) -> HostEnv {
    HostEnv {
        host_name: host.as_bytes().to_vec(),
        ip0: ip[0],
        ip1: ip[1],
        ip2: ip[2],
        ip3: ip[3],
        domain: domain.as_bytes().to_vec(),
        containers,
    }
}

fn labeled(labels: &[(&str, &str)]) -> ContainerInfo {
    ContainerInfo {
        labels: labels
            .iter()
            .map(|(k, v)| ContainerLabel {
                key: k.as_bytes().to_vec(),
                value: v.as_bytes().to_vec(),
            })
            .collect(),
        network_ips: Vec::new(),
    }
}

fn client_ep() -> Endpoint {
    Endpoint {
        ip0: 192,
        ip1: 168,
        ip2: 1,
        ip3: 5,
        port: 33000,
    }
}

fn check_single_a_answer(reply: &[u8], addr: [u8; 4]) {
    let msg = Message::from_octets(reply.to_vec()).unwrap();
    assert_eq!(msg.header().rcode(), Rcode::NoError);
    assert!(msg.header().ra());
    let mut count = 0;
    for rec in msg.answer().unwrap().limit_to::<A>() {
        let rec = rec.unwrap();
        assert_eq!(rec.data().addr().octets(), addr);
        assert_eq!(rec.ttl(), Ttl::from_secs(1));
        count += 1;
    }
    assert_eq!(count, 1);
}

#[test]
fn self_match_answers_with_host_address() {
    let e = env("alpha", [10, 0, 0, 7], "local", Vec::new());
    let query = build_query(0x1234, "alpha.local");
    let msg = parse_message(&query).unwrap();
    match process_step(&e, &msg, client_ep(), 0) {
        StepResult::Done(Ret::Resp(reply)) => {
            assert_ne!(reply, query);
            check_single_a_answer(&reply, [10, 0, 0, 7]);
            let parsed = Message::from_octets(reply).unwrap();
            assert_eq!(parsed.header().id(), 0x1234);
        }
        _ => panic!("expected a direct answer"),
    }
}

#[test]
fn container_label_match_answers_with_host_address() {
    let c = labeled(&[("caddy_0", "web.local")]);
    let e = env("alpha", [10, 0, 0, 7], "local", vec![c]);
    let query = build_query(2, "web.local");
    let msg = parse_message(&query).unwrap();
    match process_step(&e, &msg, client_ep(), 0) {
        StepResult::Done(Ret::Resp(reply)) => check_single_a_answer(&reply, [10, 0, 0, 7]),
        _ => panic!("expected a direct answer"),
    }
}

#[test]
fn dotted_label_key_does_not_match() {
    let c = labeled(&[("caddy.example", "web.local")]);
    let e = env("alpha", [10, 0, 0, 7], "local", vec![c]);
    let query = build_query(2, "web.local");
    let msg = parse_message(&query).unwrap();
    match process_step(&e, &msg, client_ep(), 0) {
        StepResult::Done(Ret::SendToMesh(bytes, back)) => {
            assert_eq!(bytes, query);
            assert_eq!(back, client_ep());
        }
        _ => panic!("expected a mesh hand-off"),
    }
}

#[test]
fn repeated_self_match_is_byte_identical() {
    let e = env("alpha", [10, 0, 0, 7], "local", Vec::new());
    let query = build_query(0x4242, "alpha.local");
    let msg1 = parse_message(&query).unwrap();
    let msg2 = parse_message(&query).unwrap();
    let r1 = match process_step(&e, &msg1, client_ep(), 0) {
        StepResult::Done(Ret::Resp(reply)) => reply,
        _ => panic!("expected a direct answer"),
    };
    let r2 = match process_step(&e, &msg2, client_ep(), 0) {
        StepResult::Done(Ret::Resp(reply)) => reply,
        _ => panic!("expected a direct answer"),
    };
    assert_eq!(r1, r2);
}

#[test]
fn suffix_matching_is_case_insensitive() {
    let e = env("foo", [10, 0, 0, 7], "local", Vec::new());
    let lower = build_query(1, "foo.local");
    let upper = build_query(1, "FOO.LOCAL");
    let rl = match process_step(&e, &parse_message(&lower).unwrap(), client_ep(), 0) {
        StepResult::Done(Ret::Resp(reply)) => reply,
        _ => panic!("expected a direct answer"),
    };
    let ru = match process_step(&e, &parse_message(&upper).unwrap(), client_ep(), 0) {
        StepResult::Done(Ret::Resp(reply)) => reply,
        _ => panic!("expected a direct answer"),
    };
    let ml = Message::from_octets(rl).unwrap();
    let mu = Message::from_octets(ru).unwrap();
    assert_eq!(ml.header().rcode(), mu.header().rcode());
    check_single_a_answer(mu.as_slice(), [10, 0, 0, 7]);
}

#[test]
fn in_domain_miss_forwards_to_mesh_and_correlates() {
    let e = env("alpha", [10, 0, 0, 7], "local", Vec::new());
    let src = Endpoint {
        ip0: 192,
        ip1: 168,
        ip2: 1,
        ip3: 5,
        port: 33001,
    };
    let query = build_query(0x77, "beta.local");
    let msg = parse_message(&query).unwrap();
    let (bytes, back) = match process_step(&e, &msg, src, 0) {
        StepResult::Done(Ret::SendToMesh(bytes, back)) => (bytes, back),
        _ => panic!("expected a mesh hand-off"),
    };
    assert_eq!(bytes, query);
    assert_eq!(back, src);

    let mut table: ExpiringMap<Endpoint> = ExpiringMap::new(30_000);
    let sent = mesh_outbound_server(&mut table, msg.id, msg.qr, back, 1_000);
    assert!(sent);
    assert!(table.contains(0x77));
    assert_eq!(table.get(0x77, 1_000), Some(src));

    let resent = mesh_outbound_server(&mut table, msg.id, msg.qr, back, 1_500);
    assert!(!resent, "a pending transaction is never rebroadcast");
}

#[test]
fn mesh_reply_is_correlated_back_to_the_client() {
    let src = Endpoint {
        ip0: 192,
        ip1: 168,
        ip2: 1,
        ip3: 5,
        port: 33001,
    };
    let mut table: ExpiringMap<Endpoint> = ExpiringMap::new(30_000);
    let query = build_query(0x77, "beta.local");
    let qmsg = parse_message(&query).unwrap();
    mesh_outbound_server(&mut table, qmsg.id, qmsg.qr, src, 1_000);

    let reply = build_mesh_reply(&query, [10, 0, 0, 9]);
    let rmsg = parse_message(&reply).unwrap();
    assert!(rmsg.qr);
    assert_eq!(rmsg.id, 0x77);
    match mesh_inbound_server(&table, rmsg.id, rmsg.qr, 2_000) {
        MeshInAction::ForwardToClient(client) => assert_eq!(client, src),
        _ => panic!("expected the reply to be forwarded"),
    }
}

#[test]
fn stale_entry_is_never_a_reply_target() {
    let src = client_ep();
    let mut table: ExpiringMap<Endpoint> = ExpiringMap::new(30_000);
    mesh_outbound_server(&mut table, 9, false, src, 1_000);
    assert!(table.contains(9));
    match mesh_inbound_server(&table, 9, true, 31_001) {
        MeshInAction::Discard => {}
        _ => panic!("a stale entry must not be used"),
    }
}

#[test]
fn unknown_mesh_id_is_reprocessed_and_never_rebroadcast() {
    let table: ExpiringMap<Endpoint> = ExpiringMap::new(30_000);
    let query = build_query(0x99, "gamma.local");
    let msg = parse_message(&query).unwrap();
    match mesh_inbound_server(&table, msg.id, msg.qr, 1_000) {
        MeshInAction::Process => {}
        _ => panic!("an unknown transaction is reprocessed"),
    }
    let e = env("alpha", [10, 0, 0, 7], "local", Vec::new());
    let mesh = mesh_endpoint();
    match process_step(&e, &msg, mesh, 0) {
        StepResult::Done(Ret::NoOp) => {}
        _ => panic!("an unresolvable mesh query yields no operation"),
    }
}

#[test]
fn mesh_sourced_response_is_dispatched_to_mesh_queue_only() {
    let mesh = mesh_endpoint();
    let reply = build_mesh_reply(&build_query(5, "alpha.local"), [10, 0, 0, 7]);
    match dispatch_ret(Ret::Resp(reply.clone()), mesh) {
        Dispatch::ToMesh(bytes, e) => {
            assert_eq!(bytes, reply);
            assert_eq!(e, mesh);
        }
        _ => panic!("a mesh-sourced response goes to the mesh queue"),
    }
    let mut table: ExpiringMap<Endpoint> = ExpiringMap::new(30_000);
    let sent = mesh_outbound_server(&mut table, 5, true, mesh, 1_000);
    assert!(!sent, "nothing is broadcast for a multicast client");
    assert!(!table.contains(5));
}

#[test]
fn client_sourced_response_is_dispatched_to_client_queue() {
    let reply = build_mesh_reply(&build_query(5, "alpha.local"), [10, 0, 0, 7]);
    match dispatch_ret(Ret::Resp(reply.clone()), client_ep()) {
        Dispatch::ToClient(bytes, e) => {
            assert_eq!(bytes, reply);
            assert_eq!(e, client_ep());
        }
        _ => panic!("a client-sourced response goes to the client queue"),
    }
}

#[test]
fn out_of_domain_defers_to_upstream() {
    let mut dns = labeled(&[("DNS_SERVER", "")]);
    dns.network_ips = vec![None, Some(b"172.17.0.3".to_vec())];
    let e = env("alpha", [10, 0, 0, 7], "local", vec![dns]);
    let query = build_query(0xab, "example.com");
    let msg = parse_message(&query).unwrap();
    match process_step(&e, &msg, client_ep(), 0) {
        StepResult::NeedUpstream(i) => assert_eq!(i, 0),
        _ => panic!("expected an upstream consultation"),
    }
    let picked = pick_upstream_server(&e.containers).unwrap();
    assert_eq!(picked, b"172.17.0.3".to_vec());

    let upstream_reply = build_mesh_reply(&query, [93, 184, 216, 34]);
    match process_resume(&e, &msg, client_ep(), 0, Some(upstream_reply.clone())) {
        StepResult::Done(Ret::Resp(bytes)) => assert_eq!(bytes, upstream_reply),
        _ => panic!("an upstream reply is the final answer"),
    }
    match process_resume(&e, &msg, client_ep(), 0, None) {
        StepResult::Done(Ret::SendToMesh(bytes, back)) => {
            assert_eq!(bytes, query);
            assert_eq!(back, client_ep());
        }
        _ => panic!("an upstream timeout falls through to the mesh"),
    }
}

#[test]
fn no_upstream_advertised_behaves_as_exhausted() {
    let e = env("alpha", [10, 0, 0, 7], "local", Vec::new());
    let query = build_query(0xab, "example.com");
    let msg = parse_message(&query).unwrap();
    match process_step(&e, &msg, client_ep(), 0) {
        StepResult::Done(Ret::SendToMesh(bytes, _)) => assert_eq!(bytes, query),
        _ => panic!("expected a mesh hand-off"),
    }
    assert!(pick_upstream_server(&e.containers).is_none());
}

#[test]
fn endpoint_variant_answers_matches_and_stays_silent_otherwise() {
    let c = labeled(&[("caddy_0", "web.local")]);
    let e = env("alpha", [10, 0, 0, 7], "local", vec![c]);
    let hit = parse_message(&build_query(1, "web.local")).unwrap();
    match process_query_endpoint(&e, &hit) {
        Ret::Resp(reply) => check_single_a_answer(&reply, [10, 0, 0, 7]),
        _ => panic!("expected a direct answer"),
    }
    let miss = parse_message(&build_query(2, "beta.local")).unwrap();
    match process_query_endpoint(&e, &miss) {
        Ret::NoOp => {}
        _ => panic!("the endpoint variant never forwards"),
    }
    let out = parse_message(&build_query(3, "example.com")).unwrap();
    match process_query_endpoint(&e, &out) {
        Ret::NoOp => {}
        _ => panic!("the endpoint variant never forwards out-of-domain queries"),
    }
}

#[test]
fn endpoint_mesh_rules_gate_on_presence() {
    let mut s = ExpiringSet::new(30_000);
    assert!(
        mesh_outbound_endpoint(&mut s, 5, true, 1_000),
        "a locally produced response to an unknown transaction is broadcast"
    );
    assert!(
        !mesh_inbound_endpoint(&s, 5),
        "the recorded transaction is not reprocessed when echoed back"
    );
    assert!(mesh_inbound_endpoint(&s, 6));
    assert!(
        !mesh_outbound_endpoint(&mut s, 6, false, 1_000),
        "a query is never broadcast by the endpoint variant"
    );
    assert!(
        !mesh_outbound_endpoint(&mut s, 5, true, 40_000),
        "a recorded transaction is suppressed until swept, irrespective of expiry"
    );
    s.remove_expired_entries(40_000);
    assert!(mesh_outbound_endpoint(&mut s, 5, true, 40_000));
}

#[test]
fn malformed_datagram_is_rejected_by_the_decoder() {
    assert!(parse_message(&vec![1, 2, 3]).is_none());
    let query = build_query(4, "alpha.local");
    let m = parse_message(&query).unwrap();
    assert_eq!(m.bytes, query);
    assert_eq!(m.id, 4);
    assert!(!m.qr);
    assert_eq!(m.questions, vec![b"alpha.local".to_vec()]);
}
