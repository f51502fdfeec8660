use stress::crypto::generate_hash;
use stress::nonce::NonceTracker;
use stress::plan::{build_batch_bodies, build_plan};
use stress::results::{TestResults, TransactionOutcome};
use stress::rpc::{classify_response, create_block_body, send_transaction_body, RpcResponse};
use stress::wallets::{Wallet, WalletStore};

#[test]
fn send_transaction_envelope_is_exact() {
    let body = send_transaction_body("0xaa", "0xbb", 26, "0xdead");
    let expected = "{\"jsonrpc\":\"2.0\",\"method\":\"eth_sendTx\",\"params\":[{\"from\":\"0xaa\",\"to\":\"0xbb\",\"nonce\":\"0x1a\",\"value\":\"0x0\",\"newHash\":\"0xdead\",\"data\":\"0x\"}],\"id\":1}";
    assert_eq!(String::from_utf8(body).unwrap(), expected);
}

#[test]
fn send_transaction_envelope_parses_as_json_rpc() {
    let body = send_transaction_body("0x1111", "0x2222", 0, "0xffff");
    let v: serde_json::Value = serde_json::from_slice(&body).unwrap();
    assert_eq!(v.get("jsonrpc").unwrap(), "2.0");
    assert_eq!(v.get("method").unwrap(), "eth_sendTx");
    assert_eq!(v.get("id").unwrap(), 1);
    let params = v.get("params").unwrap().as_array().unwrap();
    assert_eq!(params.len(), 1);
    let tx = &params[0];
    assert_eq!(tx.get("from").unwrap(), "0x1111");
    assert_eq!(tx.get("to").unwrap(), "0x2222");
    assert_eq!(tx.get("nonce").unwrap(), "0x0");
    assert_eq!(tx.get("value").unwrap(), "0x0");
    assert_eq!(tx.get("newHash").unwrap(), "0xffff");
    assert_eq!(tx.get("data").unwrap(), "0x");
}

#[test]
fn addresses_are_escaped_inside_the_envelope() {
    let body = send_transaction_body("a\"b\\c\u{1}", "0xbb", 1, "0x00");
    let s = String::from_utf8(body).unwrap();
    assert!(s.contains("\"from\":\"a\\\"b\\\\c\\u0001\""));
    let v: serde_json::Value = serde_json::from_str(&s).unwrap();
    assert_eq!(v["params"][0].get("from").unwrap(), "a\"b\\c\u{1}");
}

#[test]
fn create_block_envelope_is_exact() {
    let body = create_block_body(1700000000);
    let expected =
        "{\"jsonrpc\":\"2.0\",\"method\":\"miner_createBlock\",\"params\":[1700000000],\"id\":1}";
    assert_eq!(String::from_utf8(body).unwrap(), expected);
}

#[test]
fn generated_hash_is_sixty_four_lowercase_hex_digits() {
    let h = generate_hash();
    assert_eq!(h.len(), 66);
    assert!(h.starts_with("0x"));
    assert!(h[2..].chars().all(|c| c.is_ascii_hexdigit() && !c.is_ascii_uppercase()));
}

#[test]
fn response_with_error_member_is_an_rpc_failure() {
    let out = classify_response(RpcResponse::Body(String::from("{\"error\":\"boom\"}")));
    match out {
        TransactionOutcome::Failure(m) => assert_eq!(m, "rpc: \"boom\""),
        TransactionOutcome::Success => panic!("an error member must classify as a failure"),
    }
}

#[test]
fn response_without_error_member_is_a_success() {
    let out = classify_response(RpcResponse::Body(String::from("{\"result\":\"0x1\"}")));
    assert!(matches!(out, TransactionOutcome::Success));
}

#[test]
fn unparseable_body_is_a_transport_failure() {
    let out = classify_response(RpcResponse::Body(String::from("not json at all")));
    match out {
        TransactionOutcome::Failure(m) => assert_eq!(m, "transport: malformed response body"),
        TransactionOutcome::Success => panic!("a malformed body must classify as a failure"),
    }
}

#[test]
fn transport_error_keeps_its_detail() {
    let out = classify_response(RpcResponse::Transport(String::from("connection refused")));
    match out {
        TransactionOutcome::Failure(m) => assert_eq!(m, "transport: connection refused"),
        TransactionOutcome::Success => panic!("a transport error must classify as a failure"),
    }
}

#[test]
fn successes_and_failures_always_sum_to_the_total() {
    let outcomes = vec![
        TransactionOutcome::Success,
        TransactionOutcome::Failure(String::from("rpc: one")),
        TransactionOutcome::Success,
        TransactionOutcome::Failure(String::from("rpc: two")),
        TransactionOutcome::Failure(String::from("rpc: three")),
    ];
    let total = outcomes.len();
    let mut results = TestResults::default();
    results.record_all(outcomes);
    assert_eq!(results.successful + results.failed, total);
    assert_eq!(results.successful, 2);
    assert_eq!(results.failed, 3);
    assert_eq!(results.errors, vec!["rpc: one", "rpc: two", "rpc: three"]);
}

#[test]
fn all_successes_leave_no_failures_and_no_errors() {
    let outcomes = vec![TransactionOutcome::Success; 50];
    let mut results = TestResults::default();
    results.record_all(outcomes);
    assert_eq!(results.successful, 50);
    assert_eq!(results.failed, 0);
    assert!(results.errors.is_empty());
}

#[test]
fn throughput_is_successes_per_elapsed_second() {
    let mut results = TestResults::default();
    results.record_all(vec![TransactionOutcome::Success; 500]);
    results.finalize(1_000, 3_000);
    // 500 successes in 2 seconds: 250.00 transactions per second
    assert_eq!(results.actual_tps_hundredths, 25_000);
    assert_eq!(results.start_millis, 1_000);
    assert_eq!(results.end_millis, 3_000);
}

#[test]
fn throughput_is_zero_when_no_time_elapsed_or_nothing_succeeded() {
    let mut results = TestResults::default();
    results.finalize(5, 5);
    assert_eq!(results.actual_tps_hundredths, 0);
    let mut idle = TestResults::default();
    idle.finalize(0, 10_000);
    assert_eq!(idle.actual_tps_hundredths, 0);
}

#[test]
fn batch_bodies_follow_the_plan() {
    let store = WalletStore::new(vec![
        Wallet { address: String::from("0xaaa") },
        Wallet { address: String::from("0xbbb") },
    ])
    .unwrap();
    let mut tracker = NonceTracker::seed(vec![3, 8]);
    let plan = build_plan(3, &mut tracker);
    let bodies = build_batch_bodies(&store, &plan, 0, 3);
    assert_eq!(bodies.len(), 3);
    let expected = [("0xaaa", "0xbbb", "0x3"), ("0xbbb", "0xaaa", "0x8"), ("0xaaa", "0xbbb", "0x4")];
    for (body, (from, to, nonce)) in bodies.iter().zip(expected.iter()) {
        let v: serde_json::Value = serde_json::from_slice(body).unwrap();
        let tx = &v["params"][0];
        assert_eq!(tx.get("from").unwrap(), *from);
        assert_eq!(tx.get("to").unwrap(), *to);
        assert_eq!(tx.get("nonce").unwrap(), *nonce);
        let hash = tx.get("newHash").unwrap().as_str().unwrap();
        assert_eq!(hash.len(), 66);
        assert!(hash.starts_with("0x"));
    }
}
