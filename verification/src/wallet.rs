//! The federation's multisig wallets: node endpoints, stored options such as
//! the last block heights, and the daily deposit accounts.
use vstd::prelude::*;
use crate::text::{json_u32, json_i64, json_usize, parse_json_u32, parse_json_i64, parse_json_usize};

verus! {

/// A multisig deposit address and the account index its keys are derived at.
pub struct WalletList {
    pub mutlisig_address: String,
    pub indexer: u32,
}

/// A stored option value.
pub struct OptionList {
    pub value: String,
}

/// A node's reply carrying a multisig address.
pub struct MultiSigResponse {
    pub result: MultiSigModel,
}

pub struct MultiSigModel {
    pub address: String,
}

/// A derived public key.
pub struct PubkeyResponse {
    pub pubkey: String,
}

/// What installing a node hands back: its mnemonic and its peer key pair.
pub struct WalletInstallModel {
    pub mnemonic: String,
    pub peer_pub: String,
    pub peer_private: String,
}

pub struct WalletCommonModel {
    pub pubkey: String,
}

/// The wallet listing.
pub struct WalletListModel {
    pub data: Vec<WalletList>,
}

pub struct AccountNumberDTO {
    pub account_number: String,
}

/// The current deposit address: the last row that the address table gives
/// for the newest address, "" when there is none.
pub open spec fn spec_deposit_address(rows: Seq<String>) -> Seq<char> {
    if rows.len() == 0 {
        Seq::empty()
    } else {
        rows.last()@
    }
}

/// The deposit address model.
pub struct DepositAddressModel {
    pub address: String,
}

impl DepositAddressModel {
    /// The model made from `rows`, the addresses that the address table
    /// gives for its newest entry when the model is made.
    pub fn new(rows: &Vec<String>) -> (res: DepositAddressModel)
        ensures
            res.address@ == spec_deposit_address(rows@),
    {
        DepositAddressModel { address: last_or_empty(rows) }
    }

    /// The current deposit address. The table is read again for this call:
    /// `rows` are the addresses it gives now, and the address is taken from
    /// them, not from what the model held when it was made.
    pub fn get_deposit_address(&self, rows: &Vec<String>) -> (res: String)
        ensures
            res@ == spec_deposit_address(rows@),
    {
        last_or_empty(rows)
    }
}

/// The RPC addresses of the two chains' nodes.
pub struct RpcEndpoints {
    pub bitcoin: String,
    pub maranode: String,
}

/// The RPC address for `node_type`: Bitcoin's node for "bitcoin", the side
/// chain's node for anything else.
pub fn get_api_base(node_type: &String, endpoints: &RpcEndpoints) -> (res: String)
    ensures
        res@ == (if node_type@ == "bitcoin"@ {
            endpoints.bitcoin@
        } else {
            endpoints.maranode@
        }),
{
    let bitcoin = String::from_str("bitcoin");
    if *node_type == bitcoin {
        endpoints.bitcoin.clone()
    } else {
        endpoints.maranode.clone()
    }
}

/// The value read from a table where the last row found wins: the last of
/// `values`, or "" when there is none (an unset option, no deposit address).
pub fn last_or_empty(values: &Vec<String>) -> (res: String)
    ensures
        res@ == (if values@.len() == 0 {
            Seq::<char>::empty()
        } else {
            values@.last()@
        }),
{
    if values.len() == 0 {
        String::new()
    } else {
        values[values.len() - 1].clone()
    }
}

// ---------------------------------------------------------------------------
// Block heights stored as options
// ---------------------------------------------------------------------------

/// The height after `height`, `None` when it does not fit in a `u32`.
pub fn next_height(height: u32) -> (res: Option<u32>)
    ensures
        height < u32::MAX ==> res == Some((height + 1) as u32),
        height == u32::MAX ==> res is None,
{
    if height < u32::MAX {
        Some(height + 1)
    } else {
        None
    }
}

/// The block height after the one stored as `option_value`: `None` when the
/// text is no `u32` for `serde_json` or the next height does not fit.
pub fn next_block_height(option_value: &String) -> (res: Option<u32>)
    ensures
        res is Some <==> (json_u32(option_value@) matches Some(h) && h < u32::MAX),
        res matches Some(n) ==> json_u32(option_value@) == Some((n - 1) as u32),
{
    match parse_json_u32(option_value.as_str()) {
        Ok(h) => next_height(h),
        Err(_) => None,
    }
}

/// The number of whole days of blocks (144 a day) up to `height`, rounded
/// toward zero.
pub open spec fn spec_height_to_day(height: int) -> int {
    if height >= 0 {
        height / 144
    } else {
        -((-height) / 144)
    }
}

/// Days of blocks up to `height`: the height rounded down to a multiple of
/// 144, divided by 144 (toward zero for a negative height).
pub fn block_height_to_day(height: i64) -> (res: i64)
    ensures
        res == spec_height_to_day(height as int),
        height >= 0 ==> res * 144 <= height < res * 144 + 144,
{
    if height >= 0 {
        let h = height as u64;
        let remaining_count = h % 144;
        let rounded = h - remaining_count;
        (rounded / 144) as i64
    } else {
        let magnitude: u64 = ((-(height + 1)) as u64) + 1;
        assert(magnitude == -height);
        let days = (magnitude / 144) as i64;
        -days
    }
}

/// Days of Bitcoin blocks up to the height stored as `option_value`, `None`
/// when the text is no `i64` for `serde_json`.
pub fn bitcoin_block_height_by_day(option_value: &String) -> (res: Option<i64>)
    ensures
        res is Some <==> json_i64(option_value@) is Some,
        res matches Some(d) ==> d == spec_height_to_day(json_i64(option_value@)->0 as int),
{
    match parse_json_i64(option_value.as_str()) {
        Ok(h) => Some(block_height_to_day(h)),
        Err(_) => None,
    }
}

/// The Bitcoin block height stored as `option_value`, read as the turn
/// counter of the decision maker; `None` when no `usize` for `serde_json`.
pub fn decision_height(option_value: &String) -> (res: Option<usize>)
    ensures
        res == json_usize(option_value@),
{
    match parse_json_usize(option_value.as_str()) {
        Ok(h) => Some(h),
        Err(_) => None,
    }
}

// ---------------------------------------------------------------------------
// Daily deposit accounts
// ---------------------------------------------------------------------------

/// `(day % 1000) as u32`: the remainder rounds toward zero, so a negative day
/// gives a negative remainder that wraps around `u32`.
pub open spec fn spec_account_number(day: int) -> u32 {
    if day >= 0 {
        (day % 1000) as u32
    } else if (-day) % 1000 == 0 {
        0u32
    } else {
        (4294967296 - ((-day) % 1000)) as u32
    }
}

/// The account index of the deposit address for day `day`; indices repeat
/// every 1000 days.
pub fn account_number_for_day(day: i64) -> (res: u32)
    ensures
        res == spec_account_number(day as int),
        day >= 0 ==> res < 1000,
{
    if day >= 0 {
        ((day as u64) % 1000) as u32
    } else {
        let magnitude: u64 = ((-(day + 1)) as u64) + 1;
        let r = magnitude % 1000;
        if r == 0 {
            0
        } else {
            (4294967296u64 - r) as u32
        }
    }
}

/// Law: the daily accounts form a cycle of 1000: from day 0 on, day
/// `d + 1000` uses the account of day `d`, and no two days less than 1000
/// apart share an account.
pub proof fn lemma_account_numbers_cycle(day: int, later: int)
    requires
        0 <= day <= later,
    ensures
        spec_account_number(day + 1000) == spec_account_number(day),
        later < day + 1000 && later != day ==> spec_account_number(later) != spec_account_number(day),
{
    vstd::arithmetic::div_mod::lemma_mod_add_multiples_vanish(day, 1000);
    if later < day + 1000 && later != day {
        vstd::arithmetic::div_mod::lemma_sub_mod_noop(later, day, 1000);
        vstd::arithmetic::div_mod::lemma_small_mod((later - day) as nat, 1000);
        vstd::arithmetic::div_mod::lemma_mod_bound(day, 1000);
        vstd::arithmetic::div_mod::lemma_mod_bound(later, 1000);
        if later % 1000 == day % 1000 {
            assert(((later % 1000) - (day % 1000)) % 1000 == 0);
        }
    }
}

/// How many daily accounts are rebuilt at start-up from day `day`: the last
/// ten days, fewer near the first day, one when the day is negative.
pub open spec fn spec_sync_count(day: int) -> int {
    if day < 0 {
        1
    } else if day < 10 {
        day + 1
    } else {
        10
    }
}

/// The accounts to rebuild at start-up, newest first: one per day from
/// `node_days` back, at most ten, stopping after day 0.
pub fn sync_account_numbers(node_days: i64) -> (res: Vec<u32>)
    requires
        node_days > i64::MIN,
    ensures
        res.len() == spec_sync_count(node_days as int),
        forall|i: int| 0 <= i < res.len() ==> #[trigger] res@[i] == spec_account_number(node_days - i),
{
    let mut accounts: Vec<u32> = Vec::new();
    let mut days = node_days;
    let mut x: usize = 0;
    while x < 10
        invariant_except_break
            days == node_days - x,
            x <= 10,
            x > 0 ==> days >= 0,
            accounts.len() == x,
        invariant
            node_days > i64::MIN,
            forall|i: int| 0 <= i < accounts.len() ==> #[trigger] accounts@[i] == spec_account_number(node_days - i),
        ensures
            accounts.len() == spec_sync_count(node_days as int),
        decreases 10 - x,
    {
        accounts.push(account_number_for_day(days));
        days = days - 1;
        if days < 0 {
            break;
        }
        x = x + 1;
    }
    accounts
}

/// Law: at most ten daily accounts are rebuilt, and they are those of
/// consecutive days ending at `node_days`.
pub proof fn lemma_sync_covers_recent_days(node_days: int)
    ensures
        1 <= spec_sync_count(node_days) <= 10,
        node_days >= 0 ==> node_days - spec_sync_count(node_days) + 1 >= 0,
        node_days >= 9 ==> spec_sync_count(node_days) == 10,
{
}

} // verus!
