use mara_fed::scanner::{
    block_height_option, list_deposits, list_search, list_withdraws, outputs_to_record, page_window,
    peg_confirmation_type, transaction_check, withdraw_count_search, zmq_transaction_hash, Ledger,
    StatusTarget, StatusType, TransactionCheck, TransactionType,
};

#[derive(Debug, PartialEq)]
struct DepositList {
    id: u32,
    sender_address: String,
    receiver_address: String,
    txid: String,
    amount: f64,
    confirmations: u32,
    status: String,
    date: String,
}

fn mock_get_deposits_list(_search_term: String, _limit: usize, _offset: usize) -> Vec<DepositList> {
    vec![DepositList {
        id: 1,
        sender_address: "address1".to_string(),
        receiver_address: "address2".to_string(),
        txid: "txid1".to_string(),
        amount: 0.1,
        confirmations: 1,
        status: "pending".to_string(),
        date: "2023-01-01".to_string(),
    }]
}

fn mock_get_deposits_count(_search_term: String) -> usize {
    1
}

#[test]
fn test_list_deposits() {
    let search_term = "".to_string();
    let limit = 10;
    let offset = 0;
    let result = mock_get_deposits_list(search_term.clone(), limit, offset);
    let total_docs = mock_get_deposits_count(search_term) as u32;
    let deposit_list_model = list_deposits(result, total_docs);
    assert_eq!(deposit_list_model.status, true);
    assert_eq!(deposit_list_model.totalDocs, 1);
}

fn mock_get_withdraws_list(_search_term: String, _limit: usize, _offset: usize) -> Vec<DepositList> {
    vec![DepositList {
        id: 1,
        sender_address: "sender_address".to_string(),
        receiver_address: "receiver_address".to_string(),
        txid: "txid".to_string(),
        amount: 100.0,
        confirmations: 6,
        status: "status".to_string(),
        date: "2023-01-01".to_string(),
    }]
}

fn mock_get_withdraws_count(_search_term: String) -> usize {
    1
}

#[test]
fn test_list_withdraws() {
    let search_term = "".to_string();
    let limit = 10;
    let offset = 0;
    let result = mock_get_withdraws_list(search_term.clone(), limit, offset);
    let total_docs = mock_get_withdraws_count(search_term) as u32;
    let withdraw_list_model = list_withdraws(result, total_docs);
    assert_eq!(withdraw_list_model.status, true);
    assert_eq!(withdraw_list_model.totalDocs, 1);
}

#[test]
fn empty_listing_reports_failure_with_zero_total() {
    let model = list_deposits(Vec::<DepositList>::new(), 42);
    assert!(!model.status);
    assert_eq!(model.message, "Something went wrong");
    assert_eq!(model.totalDocs, 0);
    let model = list_withdraws(mock_get_withdraws_list(String::new(), 10, 0), 7);
    assert_eq!(model.message, "Deposit list retreived successfully");
    assert_eq!(model.totalDocs, 7);
    assert_eq!(model.result[0].txid, "txid");
}

#[test]
fn page_window_counts_pages_from_one() {
    assert_eq!(page_window(None), (10, 0));
    assert_eq!(page_window(Some(1)), (10, 0));
    assert_eq!(page_window(Some(4)), (10, 30));
    for p in 1..50usize {
        let (limit, offset) = page_window(Some(p));
        assert_eq!(page_window(Some(p + 1)).1, offset + limit);
    }
}

#[test]
fn list_search_strips_quotes_and_adds_wildcards() {
    assert_eq!(list_search(&"".to_string()), None);
    assert_eq!(list_search(&"\"bc1q\"".to_string()), Some("%bc1q%".to_string()));
    assert_eq!(list_search(&"a\"b".to_string()), Some("%ab%".to_string()));
    assert_eq!(withdraw_count_search(&"\"tx\"".to_string()), Some("tx".to_string()));
    assert_eq!(withdraw_count_search(&"".to_string()), None);
}

#[test]
fn transaction_check_follows_confirmations() {
    assert_eq!(transaction_check(TransactionType::DEPOSIT, false, Some(10), 6), TransactionCheck::RecordOutputs);
    assert_eq!(transaction_check(TransactionType::WITHDRAW, false, None, 6), TransactionCheck::RecordOutputs);
    assert_eq!(
        transaction_check(TransactionType::DEPOSIT, true, Some(7), 6),
        TransactionCheck::UpdateStatus(StatusType::Completed)
    );
    assert_eq!(
        transaction_check(TransactionType::WITHDRAW, true, Some(6), 6),
        TransactionCheck::UpdateStatus(StatusType::Inprogress)
    );
    assert_eq!(
        transaction_check(TransactionType::DEPOSIT, true, None, 6),
        TransactionCheck::UpdateStatus(StatusType::Inprogress)
    );
    assert_eq!(
        transaction_check(TransactionType::PEGIN, false, Some(7), 6),
        TransactionCheck::UpdateStatus(StatusType::Completed)
    );
    assert_eq!(transaction_check(TransactionType::MAINTRANSFER, true, Some(6), 6), TransactionCheck::Unchanged);
    assert_eq!(transaction_check(TransactionType::PEGOUT, false, None, 0), TransactionCheck::Unchanged);
}

#[test]
fn outputs_to_record_selects_federation_outputs() {
    let outputs = vec!["x".to_string(), "w1".to_string(), "y".to_string(), "w2".to_string(), "w1".to_string()];
    let wallets = vec!["w1".to_string(), "w2".to_string()];
    let withdraw = "y".to_string();
    assert_eq!(outputs_to_record(TransactionType::DEPOSIT, &outputs, &wallets, &withdraw), vec![1, 3, 4]);
    assert_eq!(outputs_to_record(TransactionType::WITHDRAW, &outputs, &wallets, &withdraw), vec![2]);
    assert_eq!(outputs_to_record(TransactionType::PEGIN, &outputs, &wallets, &withdraw), Vec::<usize>::new());
}

#[test]
fn names_and_targets_of_kinds() {
    assert_eq!(StatusType::Start.name(), "Start");
    assert_eq!(StatusType::Inprogress.name(), "Inprogress");
    assert_eq!(StatusType::Completed.name(), "Completed");
    assert_eq!(TransactionType::MAINTRANSFER.name(), "MAINTRANSFER");
    assert_eq!(TransactionType::PEGOUT.name(), "PEGOUT");
    assert_eq!(TransactionType::DEPOSIT.ledger(), Ledger::Deposits);
    assert_eq!(TransactionType::PEGIN.ledger(), Ledger::Withdrawals);
    assert_eq!(TransactionType::MAINTRANSFER.status_target(), StatusTarget::DepositPegStatus);
    assert_eq!(TransactionType::PEGOUT.status_target(), StatusTarget::PegOutStatus);
    assert!(TransactionType::WITHDRAW.tracks_outputs());
    assert!(!TransactionType::PEGIN.tracks_outputs());
}

#[test]
fn peg_confirmation_type_is_pegin_unless_pegout() {
    assert_eq!(peg_confirmation_type(&"pegout".to_string()), TransactionType::PEGOUT);
    assert_eq!(peg_confirmation_type(&"0".to_string()), TransactionType::PEGIN);
    assert_eq!(peg_confirmation_type(&"1".to_string()), TransactionType::PEGIN);
}

#[test]
fn block_height_option_depends_on_rpc() {
    let bitcoin = "http://btc:8332".to_string();
    assert_eq!(block_height_option(&bitcoin.clone(), &bitcoin), "bitcoin_block_height");
    assert_eq!(block_height_option(&"http://side:1".to_string(), &bitcoin), "sidechain_block_height");
}

#[test]
fn zmq_hash_is_hex_of_second_frame() {
    let frames = vec![b"hashtx".to_vec(), vec![0x00, 0xab, 0x10, 0xff], vec![1, 0, 0, 0]];
    assert_eq!(zmq_transaction_hash(&frames), "00ab10ff");
}
