use ghost_crab::address::Address;
use ghost_crab::config::{BlockHandler, Config, DataSource, ExecutionMode, NetworkConfig, Template as TemplateConfig};
use ghost_crab::error::Error;
use ghost_crab::indexer::Indexer;
use ghost_crab::progress::ProgressUpdatePayload;
use ghost_crab::rpc_manager::{ProviderSlot, RPCManager};
use ghost_crab::templates::Template;

const ADDR: &str = "0x5FbDB2315678afecb367f032d93F642f64180aa3";

fn s(x: &str) -> String {
    x.to_string()
}

fn data_source(network: &str, address: &str, start: u64, mode: Option<ExecutionMode>) -> DataSource {
    DataSource { abi: s("abi.json"), address: s(address), start_block: start, network: s(network), execution_mode: mode }
}

fn config() -> Config {
    Config {
        data_sources: vec![
            (s("A"), data_source("mainnet", ADDR, 100, None)),
            (s("C"), data_source("mainnet", "0x1234", 5, None)),
            (s("D"), data_source("nowhere", ADDR, 5, None)),
            (s("E"), data_source("broken", ADDR, 5, Some(ExecutionMode::Serial))),
            (s("F"), data_source("mainnet", ADDR, 7, Some(ExecutionMode::Serial))),
        ],
        templates: vec![(s("B"), TemplateConfig { abi: s("abi.json"), network: s("mainnet"), execution_mode: Some(ExecutionMode::Serial) })],
        networks: vec![
            (s("mainnet"), NetworkConfig { rpc_url: s("http://localhost:8545"), requests_per_second: 5 }),
            (s("broken"), NetworkConfig { rpc_url: s("not a url"), requests_per_second: 5 }),
        ],
        block_handlers: vec![
            (s("blocks"), BlockHandler { start_block: 10, network: s("mainnet"), execution_mode: None, step: 5 }),
            (s("zero"), BlockHandler { start_block: 10, network: s("mainnet"), execution_mode: None, step: 0 }),
        ],
    }
}

#[test]
fn registers_event_handler_and_builds_its_provider() {
    let mut indexer = Indexer::new(config());
    let reg = indexer.load_event_handler(&s("A")).expect("registered");
    assert_eq!(reg.start_block, 100);
    assert_eq!(reg.step, 10_000);
    assert_eq!(reg.execution_mode, ExecutionMode::Parallel);
    assert_eq!(reg.address, Address::parse(ADDR).unwrap());
    match &reg.provider {
        ProviderSlot::New(plan) => {
            assert_eq!(plan.id, 0);
            assert_eq!(plan.rpc_url, "http://localhost:8545");
            assert_eq!(plan.network, "mainnet");
            assert_eq!(plan.rate.limit, 5);
            assert_eq!(plan.rate.period, 1000);
        }
        ProviderSlot::Existing(_) => panic!("no provider yet"),
    }
    assert!(indexer.commit_event_handler(reg));
    assert_eq!(indexer.event_handlers.len(), 1);
    assert_eq!(indexer.event_handlers[0].provider, 0);
    assert_eq!(indexer.progress_manager.state[0].label, "A");
    assert_eq!(indexer.progress_manager.state[0].start_block, 100);
}

#[test]
fn handlers_on_one_endpoint_share_a_provider() {
    let mut indexer = Indexer::new(config());
    let a = indexer.load_event_handler(&s("A")).unwrap();
    assert!(indexer.commit_event_handler(a));
    let f = indexer.load_event_handler(&s("F")).unwrap();
    assert!(matches!(f.provider, ProviderSlot::Existing(0)));
    assert_eq!(f.execution_mode, ExecutionMode::Serial);
    assert!(indexer.commit_event_handler(f));
    let b = indexer.load_block_handler(&s("blocks")).unwrap();
    assert!(matches!(b.provider, ProviderSlot::Existing(0)));
    assert!(indexer.commit_block_handler(b));
    assert_eq!(indexer.rpc_manager.rpcs.len(), 1);
    assert_eq!(indexer.block_handlers[0].step, 5);
    assert_eq!(indexer.progress_manager.state.len(), 3);
}

#[test]
fn second_registration_is_not_found() {
    let mut indexer = Indexer::new(config());
    let first = indexer.load_event_handler(&s("A"));
    assert!(first.is_ok());
    assert!(matches!(indexer.load_event_handler(&s("A")), Err(Error::NotFound(n)) if n == "A"));
    assert!(indexer.load_block_handler(&s("blocks")).is_ok());
    assert!(matches!(indexer.load_block_handler(&s("blocks")), Err(Error::NotFound(n)) if n == "blocks"));
}

#[test]
fn registration_errors() {
    let mut indexer = Indexer::new(config());
    assert!(matches!(indexer.load_event_handler(&s("missing")), Err(Error::NotFound(n)) if n == "missing"));
    assert!(matches!(indexer.load_event_handler(&s("C")), Err(Error::InvalidAddress(a)) if a == "0x1234"));
    assert!(matches!(indexer.load_event_handler(&s("D")), Err(Error::NetworkNotFound(n)) if n == "nowhere"));
    assert!(matches!(indexer.load_event_handler(&s("E")), Err(Error::InvalidRpcUrl(u)) if u == "not a url"));
    assert!(matches!(indexer.load_block_handler(&s("zero")), Err(Error::InvalidStep(n)) if n == "zero"));
    // failed registrations consumed their entries all the same
    let left: Vec<&str> = indexer.config.data_sources.iter().map(|(n, _)| n.as_str()).collect();
    assert_eq!(left, vec!["A", "F"]);
    assert_eq!(indexer.rpc_manager.rpcs.len(), 0);
}

#[test]
fn template_starts_worker_at_its_block() {
    let mut indexer = Indexer::new(config());
    let a = indexer.load_event_handler(&s("A")).unwrap();
    assert!(indexer.commit_event_handler(a));
    let x = Address::parse("0x00000000000000000000000000000000000000aa").unwrap();
    let reg = indexer.load_template(&Template { start_block: 200, address: x, handler: s("B") }).unwrap();
    assert!(matches!(reg.provider, ProviderSlot::Existing(0)));
    let worker = indexer.instantiate(reg).expect("worker");
    assert_eq!(worker.start_block, 200);
    assert_eq!(worker.address, x);
    assert_eq!(worker.step, 10_000);
    assert_eq!(worker.execution_mode, ExecutionMode::Serial);
    let record = &indexer.progress_manager.state[worker.progress];
    assert_eq!(record.label, "B");
    assert_eq!(record.start_block, 200);
    // the template stays available
    assert!(indexer.load_template(&Template { start_block: 300, address: x, handler: s("B") }).is_ok());
    assert!(matches!(
        indexer.load_template(&Template { start_block: 1, address: x, handler: s("Z") }),
        Err(Error::NotFound(n)) if n == "Z"
    ));
}

#[test]
fn templates_get_records_in_arrival_order() {
    let mut indexer = Indexer::new(config());
    let x = Address::parse("0x00000000000000000000000000000000000000aa").unwrap();
    let mut progress_ids = Vec::new();
    for start in [300u64, 200, 400] {
        let reg = indexer.load_template(&Template { start_block: start, address: x, handler: s("B") }).unwrap();
        let worker = indexer.instantiate(reg).unwrap();
        progress_ids.push((worker.progress, worker.start_block));
    }
    assert_eq!(progress_ids, vec![(0, 300), (1, 200), (2, 400)]);
}

#[test]
fn stale_slot_is_refused() {
    let mut indexer = Indexer::new(config());
    let a = indexer.load_event_handler(&s("A")).unwrap();
    let f = indexer.load_event_handler(&s("F")).unwrap();
    assert!(indexer.commit_event_handler(a));
    assert!(!indexer.commit_event_handler(f));
    assert_eq!(indexer.event_handlers.len(), 1);
    assert_eq!(indexer.progress_manager.state.len(), 1);
}

#[test]
fn registry_deduplicates_urls() {
    let mut registry = RPCManager::new();
    let url = s("http://localhost:8545");
    let slot = registry.get_or_create(&s("mainnet"), &url, 3).unwrap();
    let plan = match slot {
        ProviderSlot::New(p) => p,
        ProviderSlot::Existing(_) => panic!(),
    };
    assert_eq!(registry.register(&plan), 0);
    assert!(matches!(registry.get_or_create(&s("other"), &url, 9), Ok(ProviderSlot::Existing(0))));
    assert_eq!(registry.lookup(&url), Some(0));
    assert_eq!(registry.lookup(&s("http://other:1")), None);
    let other = registry.get_or_create(&s("x"), &s("http://other:1"), 1).unwrap();
    assert!(matches!(other, ProviderSlot::New(ref p) if p.id == 1));
}

#[test]
fn progress_follows_worker_reports() {
    let mut indexer = Indexer::new(config());
    for name in ["A", "F"] {
        let reg = indexer.load_event_handler(&s(name)).unwrap();
        assert!(indexer.commit_event_handler(reg));
    }
    let reg = indexer.load_block_handler(&s("blocks")).unwrap();
    assert!(indexer.commit_block_handler(reg));
    let pm = &mut indexer.progress_manager;
    pm.apply(0, ProgressUpdatePayload::IncrementProcessedBlocks(3));
    pm.apply(0, ProgressUpdatePayload::UpdateEndBlock(110));
    pm.apply(2, ProgressUpdatePayload::IncrementProcessedBlocks(1));
    pm.apply(2, ProgressUpdatePayload::UpdateEndBlock(10));
    let labels: Vec<&str> = pm.state.iter().map(|p| p.label.as_str()).collect();
    assert_eq!(labels, vec!["A", "F", "blocks"]);
    assert_eq!((pm.state[0].start_block, pm.state[0].current_block, pm.state[0].end_block), (100, 3, 110));
    assert_eq!((pm.state[1].start_block, pm.state[1].current_block, pm.state[1].end_block), (7, 0, 0));
    assert_eq!((pm.state[2].start_block, pm.state[2].current_block, pm.state[2].end_block), (10, 1, 10));
}

#[test]
fn endpoint_references_resolve_from_environment() {
    let mut c = config();
    c.networks[1].1.rpc_url = s("$RPC_URL");
    let env = vec![(s("OTHER"), s("x")), (s("RPC_URL"), s("http://node:8545"))];
    assert_eq!(ghost_crab::config::replace_env_vars(&mut c, &env), Ok(()));
    assert_eq!(c.networks[0].1.rpc_url, "http://localhost:8545");
    assert_eq!(c.networks[1].1.rpc_url, "http://node:8545");
    assert_eq!(c.networks[1].0, "broken");
}

#[test]
fn missing_environment_variable_is_reported() {
    let mut c = config();
    c.networks[0].1.rpc_url = s("$MISSING");
    let env = vec![(s("RPC_URL"), s("http://node:8545"))];
    assert_eq!(
        ghost_crab::config::replace_env_vars(&mut c, &env),
        Err(ghost_crab::config::ConfigError::EnvVarNotFound(s("MISSING")))
    );
}

#[test]
fn duplicate_names_are_detected() {
    let mut c = config();
    assert!(c.is_wf());
    c.networks.push((s("mainnet"), NetworkConfig { rpc_url: s("http://x:1"), requests_per_second: 1 }));
    assert!(!c.is_wf());
    assert!(ghost_crab::config::unique_names::<u8>(&vec![]));
}
