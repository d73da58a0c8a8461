use mara_fed::scanner::zmq_transaction_hash;
use mara_fed::text::{like_pattern, query_parsable, without_double_quotes};
use mara_fed::transaction::{
    chart_range, height_update, history_filter, history_offset, history_params, pool_request, query_text,
    scan_descriptors, spendable, sums_completed, ResponseError, TransactionErrorResponse,
};

#[test]
fn history_filter_and_offset() {
    let f = history_filter(&"".to_string(), 0);
    assert!(f.search.is_none());
    assert!(f.type_filter.is_none());
    let f = history_filter(&"bc1".to_string(), 2);
    assert_eq!(f.search, Some("%bc1%".to_string()));
    assert_eq!(f.type_filter, Some(2));
    assert_eq!(history_offset(1), 0);
    assert_eq!(history_offset(3), 20);
    assert_eq!(history_offset(0), -10);
    for p in -5..50i64 {
        assert_eq!(history_offset(p + 1), history_offset(p) + 10);
    }
}

#[test]
fn scan_descriptors_wrap_addresses() {
    let d = scan_descriptors(&vec!["bc1qa".to_string(), "3Fb".to_string()]);
    assert_eq!(d, vec!["addr(bc1qa)".to_string(), "addr(3Fb)".to_string()]);
}

#[test]
fn pool_requests() {
    let r = pool_request(&"bitcoin".to_string(), &"fee".to_string());
    assert_eq!(r.rpc_method, "getmempoolinfo");
    assert_eq!(r.option_name, "bitcoin_min_fee");
    assert!(r.reads_fee);
    assert!(!r.bitcoin_height);
    let r = pool_request(&"marachain".to_string(), &"fee".to_string());
    assert_eq!(r.option_name, "sidechain_min_fee");
    let r = pool_request(&"bitcoin".to_string(), &"blockheight".to_string());
    assert_eq!(r.rpc_method, "getblockcount");
    assert_eq!(r.option_name, "bitcoin_block_height");
    assert!(r.bitcoin_height);
    let r = pool_request(&"marachain".to_string(), &"blockheight".to_string());
    assert_eq!(r.option_name, "sidechain_block_height");
    assert!(!r.bitcoin_height);
    assert!(!r.reads_fee);
}

#[test]
fn height_updates_pass_turn_only_on_bitcoin_change() {
    let btc = pool_request(&"bitcoin".to_string(), &"blockheight".to_string());
    assert_eq!(height_update(&btc, 100, 101), ("101".to_string(), true));
    assert_eq!(height_update(&btc, 101, 101), ("101".to_string(), false));
    let side = pool_request(&"marachain".to_string(), &"blockheight".to_string());
    assert_eq!(height_update(&side, 0, 5), ("5".to_string(), false));
}

#[test]
fn query_parameters() {
    assert_eq!(query_text("text=completed"), Some("completed".to_string()));
    assert_eq!(query_text("?a=1&text=bitcoin%20fee"), Some("bitcoin fee".to_string()));
    assert_eq!(query_text("a=1"), None);
    assert_eq!(query_text("text"), Some("".to_string()));
    assert_eq!(
        chart_range("start_date=2023-01-01&end_date=2023-02-01"),
        Some(("2023-01-01".to_string(), "2023-02-01".to_string()))
    );
    assert_eq!(chart_range("start_date=2023-01-01"), None);
    assert_eq!(history_params("page=2&text=&type=1"), Some((2, "".to_string(), 1)));
    assert_eq!(history_params("page=123456789&text=x&type=0"), Some((12345678, "x".to_string(), 0)));
    assert_eq!(history_params("page=x&text=&type=1"), None);
    assert_eq!(history_params("page=1&type=1"), None);
}

#[test]
fn sums_and_spendability() {
    assert!(sums_completed(&"completed".to_string()));
    assert!(!sums_completed(&"pending".to_string()));
    assert!(spendable(110, 100, 6));
    assert!(!spendable(106, 100, 6));
}

#[test]
fn submission_accepted_only_without_error() {
    assert!(TransactionErrorResponse { error: ResponseError::Null }.accepted());
    assert!(!TransactionErrorResponse { error: ResponseError::Message("bad".to_string()) }.accepted());
    assert!(!TransactionErrorResponse {
        error: ResponseError::CodeMessage { code: -26, message: "rejected".to_string() }
    }
    .accepted());
}

#[test]
fn text_helpers() {
    assert_eq!(without_double_quotes("\"a\"b\""), "ab");
    assert_eq!(without_double_quotes(""), "");
    assert_eq!(like_pattern("x"), "%x%");
    let frames = vec![b"rawtx".to_vec(), vec![0xde, 0xad, 0x01]];
    assert_eq!(zmq_transaction_hash(&frames), "dead01");
    let frames = vec![b"rawtx".to_vec(), vec![]];
    assert_eq!(zmq_transaction_hash(&frames), "");
    let btc = pool_request(&"bitcoin".to_string(), &"blockheight".to_string());
    assert_eq!(height_update(&btc, 7, 0), ("0".to_string(), true));
    assert_eq!(height_update(&btc, 7, 4294967295), ("4294967295".to_string(), true));
    assert_eq!(
        history_params("page=%2B42&text=&type=-9223372036854775808"),
        Some((42, "".to_string(), i64::MIN))
    );
    assert_eq!(history_params("page=1&text=&type=9223372036854775808"), None);
    assert_eq!(history_params("page=1&text=&type=-"), None);
    assert_eq!(history_params("page=1&text=&type=%201"), None);
}

#[test]
fn query_parsable_rejects_wide_first_characters() {
    assert!(query_parsable(""));
    assert!(query_parsable("?text=caf\u{e9}"));
    assert!(query_parsable("text=\u{e9}t\u{e9}&page=1"));
    assert!(query_parsable("n\u{e9}=1"));
    assert!(!query_parsable("a=1&\u{e9}=2"));
    assert!(!query_parsable("\u{e9}"));
    assert!(!query_parsable("?\u{e9}"));
    assert!(!query_parsable("=\u{e9}"));
    assert!(!query_parsable("a&&\u{e9}"));
    assert_eq!(query_text("text=caf\u{e9}"), Some("caf\u{e9}".to_string()));
}
