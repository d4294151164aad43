use gossip_cache::broadcast::{peer_targets, Fanout, Member};
use gossip_cache::protocol::{encode, Command, Message};

fn member(name: &str, addr: &str) -> Member {
    Member { name: name.to_string(), addr: addr.to_string() }
}

fn cluster() -> Vec<Member> {
    vec![
        member("x", "127.0.0.1:4001"),
        member("a", "127.0.0.1:4002"),
        member("b", "127.0.0.1:4003"),
    ]
}

#[test]
fn fan_out_skips_self() {
    let targets = peer_targets(&cluster(), &"x".to_string());
    assert_eq!(targets, vec!["127.0.0.1:4002".to_string(), "127.0.0.1:4003".to_string()]);
    assert!(!targets.contains(&"127.0.0.1:4001".to_string()));
}

#[test]
fn fan_out_alone_sends_nothing() {
    let targets = peer_targets(&vec![member("x", "127.0.0.1:4001")], &"x".to_string());
    assert!(targets.is_empty());
    assert!(peer_targets(&vec![], &"x".to_string()).is_empty());
}

#[test]
fn failed_send_does_not_stop_round() {
    let m = Message { cmd: Command::Insert, key: "k".to_string(), value: "v".to_string() };
    let mut round = Fanout::plan(&cluster(), &"x".to_string(), &m);
    assert_eq!(round.payload(), &encode(&m));
    let mut tried = Vec::new();
    while let Some(addr) = round.next_target() {
        let addr = addr.clone();
        let ok = addr != "127.0.0.1:4002";
        tried.push(addr);
        round.record(ok);
    }
    assert_eq!(tried, vec!["127.0.0.1:4002".to_string(), "127.0.0.1:4003".to_string()]);
    assert_eq!(round.outcome(), (1, 1));
}
