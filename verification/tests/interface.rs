use bloom::commands::client_cmd::{request_line, ClientCmd, Command as ClientCommand};
use bloom::commands::server_cmd::{Command as ServerCommand, ServerCmd};
use bloom::commands::{Launch, Subcommand};
use bloom::hello::hello_message;
use bloom::rpc::{node_buckets, Info, RpcError, SubscriptionKey, Subscriptions};
use bloom::server::BloomHandler;

#[test]
fn subscriptions_count_up() {
    let mut subs: Subscriptions<&str> = Subscriptions::new();
    assert_eq!(subs.subscribe(10), Ok(0));
    subs.activate(0, "first");
    assert_eq!(subs.subscribe(10), Ok(1));
    subs.activate(1, "second");
    assert_eq!(subs.sinks().len(), 2);
    assert_eq!(subs.subscribe(9), Err(RpcError::InvalidSubscriptionParams));
    assert_eq!(subs.subscribe(10), Ok(2));
}

#[test]
fn unsubscribe_once() {
    let mut subs: Subscriptions<u8> = Subscriptions::new();
    let id = subs.subscribe(10).unwrap();
    subs.activate(id, 1);
    assert_eq!(subs.unsubscribe(&SubscriptionKey::Number(id)), Ok(true));
    assert_eq!(subs.unsubscribe(&SubscriptionKey::Number(id)), Err(RpcError::InvalidSubscription));
    assert_eq!(subs.unsubscribe(&SubscriptionKey::Text("0".to_string())), Err(RpcError::InvalidSubscription));
    assert!(subs.sinks().is_empty());
}

#[test]
fn error_messages() {
    assert_eq!(
        RpcError::InvalidSubscriptionParams.message(),
        "Rejecting subscription - invalid parameters provided."
    );
    assert_eq!(RpcError::InvalidSubscription.message(), "Invalid subscription.");
}

#[test]
fn info_report() {
    let info = Info::new(Some("enode://x@1.1.1.1:1".to_string()), None);
    assert_eq!(info.external_url().as_deref(), Some("enode://x@1.1.1.1:1"));
    assert_eq!(info.local_url(), &None);
}

#[test]
fn peers_report_copies_table() {
    let mut node = BloomHandler::new();
    node.handle_hello(8, &hello_message(8), Some("p8".to_string())).unwrap();
    let report = node.peers_report(vec![8, 9]);
    assert_eq!(report.sync_peers().len(), 1);
    assert_eq!(report.sync_peers()[&8].address, "p8");
    assert_eq!(report.service_peers(), &vec![8, 9]);
}

#[test]
fn node_buckets_flatten_with_bucket_number() {
    let mut table: Vec<Vec<(u32, u16)>> = vec![Vec::new(); 256];
    table[0].push((10, 100));
    table[3].push((30, 300));
    table[3].push((31, 301));
    table[255].push((255, 999));
    let nodes = node_buckets(Some(&table));
    let flat: Vec<(u8, u32, u16)> = nodes.iter().map(|n| (n.buck_id, n.node_id, n.address)).collect();
    assert_eq!(flat, vec![(0, 10, 100), (3, 30, 300), (3, 31, 301), (255, 255, 999)]);
    assert!(node_buckets::<u32, u16>(None).is_empty());
}

#[test]
fn node_buckets_past_256_are_not_reported() {
    let mut table: Vec<Vec<(u8, u8)>> = vec![Vec::new(); 300];
    table[256].push((1, 1));
    assert!(node_buckets(Some(&table)).is_empty());
}

fn client(cmd: ClientCommand) -> ClientCmd {
    ClientCmd::new("127.0.0.1".to_string(), 23030, cmd)
}

#[test]
fn request_line_format() {
    assert_eq!(
        request_line("info", "[]"),
        "{ \"jsonrpc\":\"2.0\", \"id\": 1, \"method\": \"info\", \"params\": [] }\n"
    );
}

#[test]
fn client_requests() {
    let cases = vec![
        (ClientCommand::Info {}, "info", "[]"),
        (ClientCommand::Peers {}, "peers", "[]"),
        (ClientCommand::Tx_pool {}, "tx_pool", "[]"),
        (ClientCommand::Node_buckets {}, "node_buckets", "[]"),
        (ClientCommand::Send_tx { body: "abcd".to_string(), hex: true }, "send_tx", "[\"abcd\", true]"),
        (ClientCommand::Send_tx { body: "hi".to_string(), hex: false }, "send_tx", "[\"hi\", false]"),
        (ClientCommand::Peers_sub { level: 10 }, "peers_sub", "[10]"),
        (ClientCommand::Peers_unsub { sub_id: 42 }, "peers_unsub", "[42]"),
    ];
    for (cmd, method, params) in cases {
        let c = client(cmd);
        assert_eq!(c.method(), method);
        assert_eq!(c.params(), params);
        let plan = c.run();
        assert_eq!(plan.method, method);
        assert_eq!(plan.request, request_line(method, params));
        assert_eq!(plan.server, "127.0.0.1");
        assert_eq!(plan.port, 23030);
        assert_eq!(plan.subscribe, method == "peers_sub");
    }
}

#[test]
fn subcommand_dispatch() {
    let server = Subcommand::Server(ServerCmd::new(ServerCommand::Run {
        port: 33030,
        data_dir: "data".to_string(),
        boot_node: None,
        log_level: "info".to_string(),
    }));
    match server.run() {
        Launch::Server(plan) => {
            assert_eq!(plan.rpc_port, Some(23030));
            assert_eq!(plan.config_path, "data/enr");
        }
        Launch::Client(_) => panic!("expected a server plan"),
    }
    let c = Subcommand::Client(client(ClientCommand::Peers_sub { level: 10 }));
    match c.run() {
        Launch::Client(plan) => {
            assert!(plan.subscribe);
            assert_eq!(plan.method, "peers_sub");
        }
        Launch::Server(_) => panic!("expected a client plan"),
    }
}

#[test]
fn notify_targets_are_the_active_subscriptions() {
    let mut subs: Subscriptions<u8> = Subscriptions::new();
    assert!(subs.notify_targets().is_empty());
    for _ in 0..3 {
        let id = subs.subscribe(10).unwrap();
        assert!(subs.issued_id(id));
        subs.activate(id, id as u8);
    }
    assert!(!subs.issued_id(3));
    subs.unsubscribe(&SubscriptionKey::Number(1)).unwrap();
    let mut targets = subs.notify_targets();
    targets.sort();
    assert_eq!(targets, vec![0, 2]);
}

#[test]
fn subscribe_activate_unsubscribe_restores_table() {
    let mut subs: Subscriptions<&str> = Subscriptions::new();
    let first = subs.subscribe(10).unwrap();
    subs.activate(first, "kept");
    let second = subs.subscribe(10).unwrap();
    assert_ne!(first, second);
    subs.activate(second, "gone");
    assert_eq!(subs.unsubscribe(&SubscriptionKey::Number(second)), Ok(true));
    assert_eq!(subs.sinks().len(), 1);
    assert_eq!(subs.sinks()[&first], "kept");
}
