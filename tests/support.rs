use ghost_crab::address::Address;
use ghost_crab::config::ConfigError;
use ghost_crab::error::Error;
use ghost_crab::monitoring::{determine_health, HandlerMetrics, HandlerType, HealthStatus, MonitoringSystem};
use ghost_crab::progress::{
    metric_change, MetricChange, MetricFamily, ProgressManager, ProgressUpdatePayload,
};
use ghost_crab::rpc_proxy::{contains_invalid_word, divide_request_by_id, plan_request, should_store, ProxyPlan};
use ghost_crab::server::Server;

#[test]
fn address_parses_with_and_without_prefix() {
    let a = Address::parse("0x5FbDB2315678afecb367f032d93F642f64180aa3").unwrap();
    assert_eq!(a.bytes[0], 0x5f);
    assert_eq!(a.bytes[19], 0xa3);
    let b = Address::parse("5fbdb2315678afecb367f032d93f642f64180aa3").unwrap();
    assert_eq!(a, b);
    assert_eq!(Address::parse("0X5fbdb2315678afecb367f032d93f642f64180aa3"), Some(a));
    assert_eq!(Address::parse("0x5fbdb2315678afecb367f032d93f642f64180aa"), None);
    assert_eq!(Address::parse("0x5fbdb2315678afecb367f032d93f642f64180ag3"), None);
    assert_eq!(Address::parse(""), None);
}

#[test]
fn progress_counter_saturates() {
    let mut pm = ProgressManager::new();
    let ch = pm.create_progress("h".to_string());
    assert_eq!(ch.id, 0);
    pm.apply(0, ProgressUpdatePayload::IncrementProcessedBlocks(u64::MAX - 1));
    pm.apply(0, ProgressUpdatePayload::IncrementProcessedBlocks(5));
    assert_eq!(pm.state[0].current_block, u64::MAX);
    pm.apply(0, ProgressUpdatePayload::SetStartBlock(9));
    assert_eq!(pm.state[0].start_block, 9);
}

#[test]
fn health_thresholds() {
    assert_eq!(determine_health(0), HealthStatus::Healthy);
    assert_eq!(determine_health(300_000), HealthStatus::Healthy);
    assert_eq!(determine_health(300_001), HealthStatus::Warning);
    assert_eq!(determine_health(900_000), HealthStatus::Warning);
    assert_eq!(determine_health(900_001), HealthStatus::Failed);
}

#[test]
fn metrics_count_tasks() {
    let mut m = HandlerMetrics::new("h".to_string(), HandlerType::Event, 0);
    m.task_started(10);
    m.task_started(20);
    m.task_completed(50);
    m.task_completed(40);
    m.task_started(30);
    m.task_failed("boom".to_string(), 35);
    assert_eq!((m.active_tasks, m.processed_tasks, m.failed_tasks), (0, 2, 1));
    assert_eq!(m.last_processed_block, 50);
    let st = m.get_status(400_100);
    assert_eq!(st.idle_duration, 400_070);
    assert_eq!(st.health_status, HealthStatus::Warning);
    assert_eq!(st.last_error, Some((400_065, "boom".to_string())));
}

#[test]
fn unhealthy_handlers_are_listed_in_order() {
    let mut sys = MonitoringSystem::new();
    sys.register_handler("a".to_string(), HandlerType::Event, 0);
    sys.register_handler("b".to_string(), HandlerType::Block, 800_000);
    sys.register_handler("c".to_string(), HandlerType::Template, 100);
    let all = sys.get_all_statuses(1_000_000);
    assert_eq!(all.len(), 3);
    let bad: Vec<(String, HealthStatus)> =
        sys.get_unhealthy_handlers(1_000_000).into_iter().map(|s| (s.name, s.health_status)).collect();
    assert_eq!(bad, vec![("a".to_string(), HealthStatus::Failed), ("c".to_string(), HealthStatus::Failed)]);
    assert!(sys.get_unhealthy_handlers(1_000).is_empty());
}

#[test]
fn proxy_splits_around_id() {
    let body = b"{\"jsonrpc\":\"2.0\",\"id\":17,\"method\":\"eth_getLogs\"}";
    let (start, value, end) = divide_request_by_id(body).unwrap();
    assert_eq!(start, b"{\"jsonrpc\":\"2.0\",\"id\":");
    assert_eq!(value, b"17");
    assert_eq!(end, b",\"method\":\"eth_getLogs\"}");
    assert_eq!(divide_request_by_id(b"{\"method\":\"x\"}"), None);
    assert_eq!(divide_request_by_id(b"{\"method\":\"x\",\"id\":3}"), None);
}

#[test]
fn proxy_splits_at_the_first_id() {
    let (start, value, end) = divide_request_by_id(b"\"id\":1,\"id\":2").unwrap();
    assert_eq!((start, value, end), (&b"\"id\":"[..], &b"1"[..], &b",\"id\":2"[..]));
    let body = b"{\"params\":[{\"id\":1,\"x\":2}],\"id\":5,\"jsonrpc\":\"2.0\"}";
    let (start, value, _) = divide_request_by_id(body).unwrap();
    assert_eq!(value, b"1");
    assert_eq!(start, b"{\"params\":[{\"id\":");
    match plan_request(body) {
        ProxyPlan::Cached { body: normal, .. } => assert_eq!(
            normal,
            b"{\"params\":[{\"id\":0,\"x\":2}],\"id\":5,\"jsonrpc\":\"2.0\"}".to_vec()
        ),
        ProxyPlan::Forward => panic!("expected a cached plan"),
    }
}

#[test]
fn metric_changes_follow_messages() {
    assert_eq!(
        metric_change(ProgressUpdatePayload::IncrementProcessedBlocks(4)),
        (MetricFamily::ProcessedBlocks, MetricChange::AddBy(4))
    );
    assert_eq!(
        metric_change(ProgressUpdatePayload::UpdateEndBlock(9)),
        (MetricFamily::EndBlock, MetricChange::SetTo(9))
    );
    assert_eq!(
        metric_change(ProgressUpdatePayload::SetStartBlock(2)),
        (MetricFamily::StartBlock, MetricChange::SetTo(2))
    );
}

#[test]
fn proxy_keys_ignore_id() {
    let a = plan_request(b"{\"id\":1,\"method\":\"eth_getLogs\"}");
    let b = plan_request(b"{\"id\":99,\"method\":\"eth_getLogs\"}");
    let c = plan_request(b"{\"id\":1,\"method\":\"eth_call\"}");
    match (&a, &b, &c) {
        (
            ProxyPlan::Cached { key: ka, body: ba },
            ProxyPlan::Cached { key: kb, body: bb },
            ProxyPlan::Cached { key: kc, .. },
        ) => {
            assert_eq!(ka, kb);
            assert_ne!(ka, kc);
            assert_eq!(ka.len(), 64);
            assert!(ka.chars().all(|ch| ch.is_ascii_hexdigit() && !ch.is_ascii_uppercase()));
            assert_eq!(ba, &b"{\"id\":0,\"method\":\"eth_getLogs\"}".to_vec());
            assert_eq!(ba, bb);
            assert_ne!(ka.as_bytes(), &ba[..]);
        }
        _ => panic!("expected cached plans"),
    }
}

#[test]
fn proxy_forwards_moving_requests() {
    assert!(contains_invalid_word(b"{\"method\":\"eth_blockNumber\",\"id\":1,\"x\":2}"));
    assert_eq!(plan_request(b"{\"method\":\"eth_blockNumber\",\"id\":1,\"x\":2}"), ProxyPlan::Forward);
    assert_eq!(plan_request(b"{\"params\":[\"latest\"],\"id\":1,\"x\":2}"), ProxyPlan::Forward);
    assert_eq!(plan_request(b"{\"params\":[\"0x1\"]}"), ProxyPlan::Forward);
}

#[test]
fn proxy_does_not_store_errors() {
    assert!(!should_store(b"{\"jsonrpc\":\"2.0\",\"id\":0,\"error\":{\"code\":-32000,\"message\":\"x\"}}"));
    assert!(should_store(b"{\"jsonrpc\":\"2.0\",\"id\":0,\"result\":\"0x1\"}"));
}

#[test]
fn server_keeps_port() {
    assert_eq!(Server::new(3000).port, 3000);
}

#[test]
fn error_messages_name_the_subject() {
    assert_eq!(Error::NotFound("A".to_string()).message(), "Handler not found: A");
    assert_eq!(Error::InvalidRpcUrl("x".to_string()).message(), "Invalid RPC url: x");
    assert_eq!(Error::InvalidStep("b".to_string()).message(), "Invalid step of handler: b");
    assert_eq!(
        ConfigError::EnvVarNotFound("RPC".to_string()).message(),
        "Environment variable not found: RPC"
    );
}
