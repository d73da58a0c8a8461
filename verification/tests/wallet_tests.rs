use mara_fed::scheduler::{scheduler_tick, TickWork};
use mara_fed::text::{read_json_u32, read_u32};
use mara_fed::cli::{cli_key_output, cli_output, key_request, sign_request, CLIResponseModel};
use mara_fed::transaction::SignDTO;
use mara_fed::wallet::{
    account_number_for_day, bitcoin_block_height_by_day, block_height_to_day, decision_height, get_api_base,
    last_or_empty, next_block_height, next_height, sync_account_numbers, DepositAddressModel, RpcEndpoints,
};

fn endpoints() -> RpcEndpoints {
    RpcEndpoints { bitcoin: "http://btc".to_string(), maranode: "http://mara".to_string() }
}

#[test]
fn api_base_selects_bitcoin_only_for_bitcoin() {
    assert_eq!(get_api_base(&"bitcoin".to_string(), &endpoints()), "http://btc");
    assert_eq!(get_api_base(&"marachain".to_string(), &endpoints()), "http://mara");
    assert_eq!(get_api_base(&"Bitcoin".to_string(), &endpoints()), "http://mara");
}

#[test]
fn deposit_address_model_reads_the_table_on_each_call() {
    let model = DepositAddressModel::new(&vec!["bc1qdeposit".to_string()]);
    assert_eq!(model.address, "bc1qdeposit");
    assert_eq!(model.get_deposit_address(&vec!["bc1qnewer".to_string()]), "bc1qnewer");
    assert_eq!(model.get_deposit_address(&vec![]), "");
    assert_eq!(DepositAddressModel::new(&vec![]).address, "");
}

#[test]
fn stored_numbers_are_read_as_std_and_serde_json_read_them() {
    assert_eq!(read_u32("6"), Some(6));
    assert_eq!(read_u32("+6"), Some(6));
    assert_eq!(read_u32("4294967295"), Some(u32::MAX));
    assert_eq!(read_u32("4294967296"), None);
    assert_eq!(read_u32("-0"), None);
    assert_eq!(read_u32(""), None);
    assert_eq!(read_u32("+"), None);
    assert_eq!(read_json_u32("812345"), Some(812345));
    assert_eq!(read_json_u32(" 7 "), Some(7));
    assert_eq!(read_json_u32("+7"), None);
    assert_eq!(read_json_u32("x"), None);
}

#[test]
fn last_row_wins_or_empty() {
    assert_eq!(last_or_empty(&vec![]), "");
    assert_eq!(last_or_empty(&vec!["a".to_string(), "b".to_string()]), "b");
}

#[test]
fn next_block_height_parses_and_increments() {
    assert_eq!(next_block_height(&"812345".to_string()), Some(812346));
    assert_eq!(next_block_height(&"0".to_string()), Some(1));
    assert_eq!(next_block_height(&"".to_string()), None);
    assert_eq!(next_block_height(&"abc".to_string()), None);
    assert_eq!(next_block_height(&"4294967295".to_string()), None);
    assert_eq!(next_block_height(&"-1".to_string()), None);
    assert_eq!(next_height(u32::MAX), None);
    assert_eq!(next_height(41), Some(42));
}

#[test]
fn block_height_by_day() {
    assert_eq!(block_height_to_day(0), 0);
    assert_eq!(block_height_to_day(143), 0);
    assert_eq!(block_height_to_day(144), 1);
    assert_eq!(block_height_to_day(800_000), 5555);
    assert_eq!(block_height_to_day(-145), -1);
    assert_eq!(block_height_to_day(i64::MIN), i64::MIN / 144);
    assert_eq!(bitcoin_block_height_by_day(&"288".to_string()), Some(2));
    assert_eq!(bitcoin_block_height_by_day(&"x".to_string()), None);
}

#[test]
fn account_numbers_wrap_every_thousand_days() {
    assert_eq!(account_number_for_day(5555), 555);
    assert_eq!(account_number_for_day(1000), 0);
    assert_eq!(account_number_for_day(-1), ((-1i64 % 1000) as u32));
    assert_eq!(account_number_for_day(-2000), 0);
}

#[test]
fn sync_rebuilds_last_ten_days() {
    assert_eq!(sync_account_numbers(1003), vec![3, 2, 1, 0, 999, 998, 997, 996, 995, 994]);
    assert_eq!(sync_account_numbers(2), vec![2, 1, 0]);
    assert_eq!(sync_account_numbers(0), vec![0]);
    assert_eq!(sync_account_numbers(-5), vec![(-5i64 % 1000) as u32]);
}

#[test]
fn decision_height_reads_usize() {
    assert_eq!(decision_height(&"12".to_string()), Some(12));
    assert_eq!(decision_height(&"1.5".to_string()), None);
}

#[test]
fn cli_outputs() {
    let ok = || Some(CLIResponseModel { status: true, result: "out".to_string() });
    let failed = || Some(CLIResponseModel { status: false, result: "why".to_string() });
    assert_eq!(cli_output(ok()), "out");
    assert_eq!(cli_output(failed()), "");
    assert_eq!(cli_output(None), "");
    assert_eq!(cli_key_output(failed()), "why");
    assert_eq!(cli_key_output(None), "");
}

#[test]
fn key_request_renders_index_in_decimal() {
    let r = key_request(907, "xpub123".to_string());
    assert_eq!(r.index, "907");
    assert_eq!(r.mnemonic, "xpub123");
    assert_eq!(key_request(0, String::new()).index, "0");
}

#[test]
fn sign_request_needs_admin_peer() {
    let params = SignDTO { hex: "70736274".to_string(), index: "4".to_string(), account_type: "user".to_string() };
    assert!(sign_request(&params, &"".to_string(), "words".to_string()).is_none());
    let r = sign_request(&params, &"peer".to_string(), "words".to_string()).unwrap();
    assert_eq!(r.hex, "70736274");
    assert_eq!(r.index, "4");
    assert_eq!(r.mnemonic, "words");
}

#[test]
fn daily_accounts_cycle_every_thousand_days() {
    for day in 0..1000i64 {
        assert_eq!(account_number_for_day(day + 1000), account_number_for_day(day));
    }
    let mut seen = std::collections::HashSet::new();
    for day in 250..1250i64 {
        assert!(seen.insert(account_number_for_day(day)));
    }
}

#[test]
fn scheduler_runs_peg_rounds_every_sixth_tick() {
    let mut elapsed = 0u32;
    for k in 1..=30u32 {
        let (counted, work) = scheduler_tick(elapsed);
        assert_eq!(work == TickWork::PegRound, k % 6 == 0);
        assert_eq!(counted, (k % 6) * 10);
        elapsed = counted;
    }
    assert_eq!(scheduler_tick(50), (0, TickWork::PegRound));
    assert_eq!(scheduler_tick(70), (80, TickWork::Confirmations));
}
