use std::collections::HashMap;

use ghost_crab::cache_layer::{
    cache_key, cacheable_request, contains_invalid_word, decimal_bytes, entry_to_store, plan_call,
    RequestId,
};

fn get_logs_body(id: &str) -> Vec<u8> {
    format!(
        "{{\"method\":\"eth_getLogs\",\"params\":[{{\"address\":\"0x5fbdb2315678afecb367f032d93f642f64180aa3\",\"fromBlock\":\"0x64\",\"toBlock\":\"0x6e\"}}],\"id\":{},\"jsonrpc\":\"2.0\"}}",
        id
    )
    .into_bytes()
}

#[test]
fn second_call_with_other_id_hits_the_store() {
    let mut store: HashMap<Vec<u8>, Vec<u8>> = HashMap::new();
    let mut transport_calls = 0;
    let payload = b"[{\"logIndex\":\"0x1\"}]".to_vec();

    let first = get_logs_body("7");
    let key = plan_call(b"eth_getLogs", &first, &RequestId::Number(7)).expect("cacheable");
    assert!(!store.contains_key(&key));
    transport_calls += 1;
    store.insert(key.clone(), payload.clone());

    let second = get_logs_body("42");
    let key2 = plan_call(b"eth_getLogs", &second, &RequestId::Number(42)).expect("cacheable");
    assert_eq!(key, key2);
    let answer = store.get(&key2).cloned();
    assert_eq!(answer, Some(payload));
    assert_eq!(transport_calls, 1);
    assert_eq!(key, get_logs_body("0"));
}

#[test]
fn latest_block_request_bypasses_the_store() {
    let body = b"{\"method\":\"eth_getBlockByNumber\",\"params\":[\"latest\",false],\"id\":3,\"jsonrpc\":\"2.0\"}";
    assert_eq!(plan_call(b"eth_getBlockByNumber", body, &RequestId::Number(3)), None);
}

#[test]
fn every_moving_tag_bypasses() {
    for tag in ["earliest", "latest", "safe", "finalized", "pending"] {
        let body = format!("{{\"method\":\"eth_call\",\"params\":[{{}},\"{}\"],\"id\":1}}", tag);
        assert!(contains_invalid_word(body.as_bytes()));
        assert!(!cacheable_request(b"eth_call", body.as_bytes()));
    }
    assert!(!contains_invalid_word(b"{\"params\":[\"0x10\"]}"));
    assert!(!contains_invalid_word(b""));
}

#[test]
fn only_reading_methods_are_cacheable() {
    let body = b"{\"params\":[\"0x10\"],\"id\":1}";
    assert!(cacheable_request(b"eth_getBlockByNumber", body));
    assert!(cacheable_request(b"eth_getLogs", body));
    assert!(cacheable_request(b"eth_call", body));
    assert!(!cacheable_request(b"eth_blockNumber", body));
    assert!(!cacheable_request(b"eth_sendRawTransaction", body));
    assert!(!cacheable_request(b"", body));
}

#[test]
fn key_rewrites_text_and_null_ids() {
    let body = b"{\"method\":\"eth_call\",\"id\":\"abc\",\"jsonrpc\":\"2.0\"}";
    let key = cache_key(body, &RequestId::Text(b"\"abc\"".to_vec()));
    assert_eq!(key, b"{\"method\":\"eth_call\",\"id\":0,\"jsonrpc\":\"2.0\"}".to_vec());
    let body = b"{\"method\":\"eth_call\",\"id\":null}";
    assert_eq!(cache_key(body, &RequestId::Null), b"{\"method\":\"eth_call\",\"id\":0}".to_vec());
}

#[test]
fn key_keeps_body_without_matching_id() {
    let body = b"{\"method\":\"eth_call\",\"id\":5}";
    assert_eq!(cache_key(body, &RequestId::Number(6)), body.to_vec());
}

#[test]
fn decimal_digits() {
    assert_eq!(decimal_bytes(0), b"0".to_vec());
    assert_eq!(decimal_bytes(42), b"42".to_vec());
    assert_eq!(decimal_bytes(u64::MAX), u64::MAX.to_string().into_bytes());
}

#[test]
fn only_the_request_id_field_is_rewritten() {
    let body = |id: &str| {
        format!(
            "{{\"method\":\"eth_call\",\"params\":[{{\"id\":7,\"to\":\"0x01\"}},\"0x10\"],\"id\":{},\"jsonrpc\":\"2.0\"}}",
            id
        )
        .into_bytes()
    };
    let k7 = plan_call(b"eth_call", &body("7"), &RequestId::Number(7)).unwrap();
    let k42 = plan_call(b"eth_call", &body("42"), &RequestId::Number(42)).unwrap();
    assert_eq!(k7, body("0"));
    assert_eq!(k7, k42);
}

#[test]
fn repeated_id_text_keeps_earlier_copies() {
    assert_eq!(cache_key(b"\"id\":7\"id\":7", &RequestId::Number(7)), b"\"id\":7\"id\":0".to_vec());
    assert_eq!(cache_key(b"\"id\":8\"id\":7", &RequestId::Number(7)), b"\"id\":8\"id\":0".to_vec());
    assert_eq!(cache_key(b"", &RequestId::Number(7)), Vec::<u8>::new());
}

#[test]
fn only_successful_cacheable_answers_are_stored() {
    let body = get_logs_body("7");
    let stored = entry_to_store(b"eth_getLogs", &body, &RequestId::Number(7), Some(b"[]".to_vec()));
    assert_eq!(stored, Some((get_logs_body("0"), b"[]".to_vec())));
    assert_eq!(entry_to_store(b"eth_getLogs", &body, &RequestId::Number(7), None), None);
    let latest = b"{\"method\":\"eth_getBlockByNumber\",\"params\":[\"latest\",false],\"id\":3}";
    assert_eq!(entry_to_store(b"eth_getBlockByNumber", latest, &RequestId::Number(3), Some(b"{}".to_vec())), None);
}
