use bloom::hash::keccak_256;
use bloom::hello::hello_message;
use bloom::server::{run, BloomHandler, HelloError, PACKET_HELLO, PACKET_TX, PROTOCAL};
use bloom::txpool::TxPool;

fn sorted(mut v: Vec<usize>) -> Vec<usize> {
    v.sort();
    v
}

fn greet(node: &mut BloomHandler, peer: usize, address: &str) {
    let data = hello_message(peer);
    assert_eq!(node.handle_hello(peer, &data, Some(address.to_string())), Ok(()));
}

#[test]
fn protocol_constants() {
    assert_eq!(&PROTOCAL, b"blo");
    assert_eq!(PACKET_HELLO, 1);
    assert_eq!(PACKET_TX, 2);
}

#[test]
fn pool_keeps_one_copy_per_id() {
    let mut pool = TxPool::new();
    assert!(pool.insert(b"a".to_vec()));
    assert!(pool.insert(b"b".to_vec()));
    assert!(!pool.insert(b"a".to_vec()));
    assert_eq!(pool.len(), 2);
    assert_eq!(pool.txs()[0].body, b"a".to_vec());
    assert_eq!(pool.txs()[1].body, b"b".to_vec());
    assert_eq!(pool.ids()[0], keccak_256(b"a"));
    assert_eq!(pool.ids()[1], keccak_256(b"b"));
    assert!(pool.contains(&keccak_256(b"b")));
    assert!(!pool.contains(&keccak_256(b"c")));
}

#[test]
fn pool_clear_and_default() {
    let mut pool = TxPool::default();
    assert_eq!(pool.len(), 0);
    pool.insert(vec![1, 2, 3]);
    pool.clear();
    assert_eq!(pool.len(), 0);
    assert!(pool.ids().is_empty());
    assert!(pool.insert(vec![1, 2, 3]));
}

#[test]
fn hello_registers_peer_with_session_address() {
    let mut node = BloomHandler::new();
    greet(&mut node, 4, "10.0.0.4:30303");
    assert_eq!(node.get_peers().len(), 1);
    assert_eq!(node.get_peers()[&4].address, "10.0.0.4:30303");
    // a second hello updates the address
    greet(&mut node, 4, "10.0.0.5:30303");
    assert_eq!(node.get_peers()[&4].address, "10.0.0.5:30303");
}

#[test]
fn hello_errors() {
    let mut node = BloomHandler::new();
    assert_eq!(node.handle_hello(1, &[0x01, 0x02], Some("x".to_string())), Err(HelloError::Malformed));
    assert_eq!(node.handle_hello(1, &hello_message(9), None), Err(HelloError::NoSession));
    assert_eq!(node.handle_hello(1, &[0x01], None), Err(HelloError::Malformed));
    assert!(node.get_peers().is_empty());
}

#[test]
fn new_tx_goes_to_every_other_peer() {
    let mut node = BloomHandler::new();
    for p in [1usize, 2, 3] {
        greet(&mut node, p, "addr");
    }
    let out = node.handle_new_tx(2, b"tx-1").unwrap();
    assert_eq!(out.payload, b"tx-1".to_vec());
    assert_eq!(sorted(out.recipients), vec![1, 3]);
    assert_eq!(node.tx_pool().len(), 1);
    // the same transaction again is dropped
    assert!(node.handle_new_tx(3, b"tx-1").is_none());
    assert_eq!(node.tx_pool().len(), 1);
}

#[test]
fn new_tx_from_unknown_peer_goes_to_all() {
    let mut node = BloomHandler::new();
    greet(&mut node, 1, "a");
    greet(&mut node, 2, "b");
    let out = node.handle_new_tx(9, b"x").unwrap();
    assert_eq!(sorted(out.recipients), vec![1, 2]);
}

#[test]
fn local_tx_accepted_once() {
    let mut node = BloomHandler::new();
    greet(&mut node, 5, "a");
    greet(&mut node, 6, "b");
    let out = node.receive_tx_from_local("deadbeef", true).unwrap();
    assert_eq!(out.payload, vec![0xde, 0xad, 0xbe, 0xef]);
    assert_eq!(sorted(out.recipients), vec![5, 6]);
    assert!(node.receive_tx_from_local("DEADBEEF", true).is_none());
    assert!(node.receive_tx_from_local("not hex", true).is_none());
    let text = node.receive_tx_from_local("not hex", false).unwrap();
    assert_eq!(text.payload, b"not hex".to_vec());
    assert_eq!(node.tx_pool().len(), 2);
}

#[test]
fn local_tx_with_no_peers() {
    let mut node = BloomHandler::new();
    let out = node.receive_tx_from_local("hello", false).unwrap();
    assert!(out.recipients.is_empty());
}

#[test]
fn get_tx_pool_drains() {
    let mut node = BloomHandler::new();
    node.receive_tx_from_local("one", false);
    node.receive_tx_from_local("two", false);
    let pool = node.get_tx_pool();
    assert_eq!(pool.len(), 2);
    assert_eq!(pool.txs()[0].body, b"one".to_vec());
    assert_eq!(node.tx_pool().len(), 0);
    // drained transactions are new again
    assert!(node.receive_tx_from_local("one", false).is_some());
    node.clear_tx_pool();
    assert_eq!(node.tx_pool().len(), 0);
}

#[test]
fn disconnect_forgets_peer() {
    let mut node = BloomHandler::new();
    greet(&mut node, 1, "a");
    greet(&mut node, 2, "b");
    node.disconnected(1);
    node.disconnected(7);
    assert_eq!(node.get_peers().len(), 1);
    let out = node.receive_tx_from_local("x", false).unwrap();
    assert_eq!(out.recipients, vec![2]);
}

#[test]
fn read_dispatches_on_packet_id() {
    let mut node = BloomHandler::new();
    assert!(node.read(3, PACKET_HELLO, &hello_message(3), Some("h".to_string())).unwrap().is_none());
    assert_eq!(node.get_peers().len(), 1);
    let out = node.read(4, PACKET_TX, b"data", None).unwrap().unwrap();
    assert_eq!(out.recipients, vec![3]);
    assert!(node.read(4, PACKET_TX, b"data", None).unwrap().is_none());
    assert!(node.read(4, 0x7f, b"data", None).unwrap().is_none());
    assert_eq!(node.read(4, PACKET_HELLO, b"", Some("h".to_string())).unwrap_err(), HelloError::Malformed);
    assert_eq!(node.tx_pool().len(), 1);
}

#[test]
fn server_plan_defaults() {
    let plan = run(33030, "data", &None, "info");
    assert_eq!(plan.port, 33030);
    assert_eq!(plan.log_level, "info");
    assert_eq!(plan.config_path, "data/enr");
    assert_eq!(plan.net_config_path, "data/nodes");
    assert_eq!(plan.client_version, "Bloom-network");
    assert_eq!(plan.rpc_port, Some(23030));
    assert_eq!(plan.boot_nodes.len(), 1);
    assert!(plan.boot_nodes[0].starts_with("enode://a1337fd03a00d8b6"));
    assert!(plan.boot_nodes[0].ends_with("@203.195.218.114:33030"));
}

#[test]
fn server_plan_paths_and_boot_node() {
    let boot = Some("enode://abc@1.2.3.4:1".to_string());
    let plan = run(40000, "/var/lib/bloom/", &boot, "debug");
    assert_eq!(plan.config_path, "/var/lib/bloom/enr");
    assert_eq!(plan.net_config_path, "/var/lib/bloom/nodes");
    assert_eq!(plan.boot_nodes[0], "enode://abc@1.2.3.4:1");
    assert_eq!(plan.boot_nodes.len(), 2);
    assert_eq!(plan.rpc_port, Some(30000));
    let plan = run(10000, "", &None, "warn");
    assert_eq!(plan.config_path, "enr");
    assert_eq!(plan.rpc_port, Some(0));
}

#[test]
fn server_plan_low_port_has_no_rpc() {
    let plan = run(9999, "d", &None, "info");
    assert_eq!(plan.rpc_port, None);
    assert_eq!(plan.config_path, "d/enr");
}

#[test]
fn path_join_matches_pathbuf() {
    for dir in ["data", "data/", "/", "", "a/b", "é/"] {
        let mut p = std::path::PathBuf::new();
        p.push(dir);
        p.push("enr");
        let plan = run(33030, dir, &None, "info");
        assert_eq!(plan.config_path, p.to_str().unwrap());
    }
}
