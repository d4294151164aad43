use gossip_cache::config::GossipodConfig;
use gossip_cache::engine::CacheOp;
use gossip_cache::ingress::{
    add_reply, add_request, missing_key, query_reply, remove_reply, remove_request,
};
use gossip_cache::protocol::{Command, Message};

#[test]
fn query_without_key() {
    let r = missing_key();
    assert_eq!(r.code, 400);
    assert_eq!(r.data, None);
    assert_eq!(r.message, "Missing 'key' parameter");
}

#[test]
fn query_found_and_missing() {
    let r = query_reply("a".to_string(), Some("1".to_string()));
    assert_eq!(r.code, 200);
    assert_eq!(r.data, Some(("a".to_string(), "1".to_string())));
    assert_eq!(r.message, "ok");
    let r = query_reply("a".to_string(), None);
    assert_eq!(r.code, 500);
    assert_eq!(r.data, None);
    assert_eq!(r.message, "Failed to retrieve value from cache");
}

#[test]
fn add_builds_insert() {
    let (op, m) = add_request("k".to_string(), "v".to_string());
    assert_eq!(op, CacheOp::Insert { key: "k".to_string(), value: "v".to_string() });
    assert_eq!(m, Message { cmd: Command::Insert, key: "k".to_string(), value: "v".to_string() });
    let ok = add_reply("k".to_string(), "v".to_string(), true);
    assert_eq!((ok.code, ok.data, ok.message.as_str()), (200, Some(("k".to_string(), "v".to_string())), "ok"));
    let failed = add_reply("k".to_string(), "v".to_string(), false);
    assert_eq!((failed.code, failed.data, failed.message.as_str()), (500, None, "Failed to process add request"));
}

#[test]
fn delete_builds_remove() {
    let (op, m) = remove_request("k".to_string());
    assert_eq!(op, CacheOp::Remove { key: "k".to_string() });
    assert_eq!(m, Message { cmd: Command::Remove, key: "k".to_string(), value: String::new() });
    let ok = remove_reply(true);
    assert_eq!((ok.code, ok.data, ok.message.as_str()), (200, None, "ok"));
    let failed = remove_reply(false);
    assert_eq!((failed.code, failed.data, failed.message.as_str()), (500, None, "Failed to process remove request"));
}

#[test]
fn config_keeps_settings() {
    let c = GossipodConfig::new("node".to_string(), "127.0.0.1".to_string(), 4001, None);
    assert_eq!(c.name, "node");
    assert_eq!(c.ip, "127.0.0.1");
    assert_eq!(c.port, 4001);
    assert_eq!(c.join_addr, None);
}
