//! Transactions: signing requests, history and fee listings, node RPC
//! requests and the query parameters of the transaction endpoints.
use vstd::prelude::*;
use crate::text::{
    spec_decimal, spec_like_pattern, spec_parse_i64, query_lookup, parsed_query, query_parses,
    like_pattern, u32_to_string, parse_i64, parse_query, query_get,
};

verus! {

/// A request to sign a partially signed transaction.
pub struct SignDTO {
    pub hex: String,
    pub index: String,
    pub account_type: String,
}

pub ghost struct SignDTOView {
    pub hex: Seq<char>,
    pub index: Seq<char>,
    pub account_type: Seq<char>,
}

impl View for SignDTO {
    type V = SignDTOView;

    open spec fn view(&self) -> SignDTOView {
        SignDTOView { hex: self.hex@, index: self.index@, account_type: self.account_type@ }
    }
}

/// A signed transaction returned by a signing node.
pub struct SignModel {
    pub hex: String,
}

/// The page parameter of the history listing endpoint.
pub struct Params {
    pub page: i64,
}

/// A stored option value served by the fee listing.
pub struct FeeData {
    pub value: String,
}

/// An entry of the transfer history.
pub struct ListHistory {
    pub address: String,
    pub tx_id: String,
    pub amount: String,
    pub fee: String,
    pub types: i64,
    pub created_date: String,
}

/// A count of history entries.
pub struct TotalHistory {
    pub total: i64,
}

/// A multisig address as listed by the address listing.
pub struct ListAddress {
    pub mutlisig_address: String,
    pub indexer: i64,
    pub created_date: String,
}

/// A page of the history with the number of matching entries.
pub struct ListHistoryModel {
    pub data: Vec<ListHistory>,
    pub total: i64,
}

pub struct ListAddressModel {
    pub data: Vec<ListAddress>,
}

pub struct FeeDataModel {
    pub data: Vec<FeeData>,
}

/// A node's reply to a block count request.
pub struct BlockHeightResponse {
    pub result: u32,
}

/// The `error` member of a node's reply: a message, a code with a message,
/// or null when the request succeeded.
pub enum ResponseError {
    Message(String),
    CodeMessage { code: i32, message: String },
    Null,
}

/// A node's reply to a submitted transaction, read for its error.
pub struct TransactionErrorResponse {
    pub error: ResponseError,
}

impl TransactionErrorResponse {
    /// Whether the node accepted the transaction (its error is null).
    pub fn accepted(&self) -> (res: bool)
        ensures
            res == (self.error is Null),
    {
        match self.error {
            ResponseError::Null => true,
            _ => false,
        }
    }
}

// ---------------------------------------------------------------------------
// History listing
// ---------------------------------------------------------------------------

/// Number of entries on a history page.
pub const HISTORY_PAGE_SIZE: i64 = 10;

/// How the history is narrowed: a `LIKE` pattern matched against address,
/// transaction id, amount, fee and date, and a history type.
pub struct HistoryFilter {
    pub search: Option<String>,
    pub type_filter: Option<i64>,
}

/// The history filter for search text `text` and type `types`: no pattern for
/// empty text, else `%text%`; no type filter for type 0.
pub fn history_filter(text: &String, types: i64) -> (res: HistoryFilter)
    ensures
        text@.len() == 0 ==> res.search is None,
        text@.len() > 0 ==> (res.search matches Some(p) && p@ == spec_like_pattern(text@)),
        res.type_filter == (if types != 0 {
            Some(types)
        } else {
            None
        }),
{
    let search = if text.as_str().unicode_len() > 0 {
        Some(like_pattern(text.as_str()))
    } else {
        None
    };
    let type_filter = if types != 0 {
        Some(types)
    } else {
        None
    };
    HistoryFilter { search, type_filter }
}

/// Entries skipped before history page `page` (pages count from 1).
pub open spec fn spec_history_offset(page: int) -> int {
    (page - 1) * HISTORY_PAGE_SIZE
}

/// Entries skipped before history page `page_size` (pages count from 1).
pub fn history_offset(page_size: i64) -> (res: i64)
    requires
        i64::MIN <= spec_history_offset(page_size as int) <= i64::MAX,
    ensures
        res == spec_history_offset(page_size as int),
{
    (page_size - 1) * HISTORY_PAGE_SIZE
}

/// Law: history pages tile the history: page 1 skips nothing and page
/// `p + 1` starts where the `HISTORY_PAGE_SIZE` entries of page `p` end.
pub proof fn lemma_history_pages_are_adjacent(p: int)
    ensures
        spec_history_offset(1) == 0,
        spec_history_offset(p + 1) == spec_history_offset(p) + HISTORY_PAGE_SIZE,
{
}

// ---------------------------------------------------------------------------
// Node RPC requests
// ---------------------------------------------------------------------------

/// `addr(address)`: the output descriptor of an address.
pub open spec fn spec_descriptor(address: Seq<char>) -> Seq<char> {
    seq!['a', 'd', 'd', 'r', '('] + address + seq![')']
}

/// The output descriptors `scantxoutset` is asked to scan, one per address.
pub fn scan_descriptors(address_list: &Vec<String>) -> (res: Vec<String>)
    ensures
        res.len() == address_list.len(),
        forall|i: int| 0 <= i < res.len() ==> #[trigger] res@[i]@ == spec_descriptor(address_list@[i]@),
{
    let mut res: Vec<String> = Vec::new();
    let mut i: usize = 0;
    while i < address_list.len()
        invariant
            i <= address_list.len(),
            res.len() == i,
            forall|j: int| 0 <= j < i ==> #[trigger] res@[j]@ == spec_descriptor(address_list@[j]@),
        decreases address_list.len() - i,
    {
        let mut d = String::from_str("addr(");
        d.append(address_list[i].as_str());
        d.append(")");
        proof {
            reveal_strlit("addr(");
            reveal_strlit(")");
        }
        res.push(d);
        i = i + 1;
    }
    res
}

/// What a pool request asks a node for and where the answer is stored.
pub struct PoolRequest {
    /// The RPC method: "getblockcount" for a block height, else "getmempoolinfo".
    pub rpc_method: String,
    /// The option the answer is stored in.
    pub option_name: String,
    /// The answer is the minimum mempool fee (else a block height).
    pub reads_fee: bool,
    /// The answer is Bitcoin's block height, whose change passes the turn of
    /// the decision maker.
    pub bitcoin_height: bool,
}

/// The pool request for chain `node_type` and kind `method_type` ("fee" or
/// "blockheight"): the fee goes to `bitcoin_min_fee` or `sidechain_min_fee`,
/// the height to `bitcoin_block_height` or `sidechain_block_height`; any other
/// kind reads the mempool into `sidechain_min_fee` as a height.
pub fn pool_request(node_type: &String, method_type: &String) -> (res: PoolRequest)
    ensures
        res.rpc_method@ == (if method_type@ == "blockheight"@ {
            "getblockcount"@
        } else {
            "getmempoolinfo"@
        }),
        res.option_name@ == (if method_type@ == "blockheight"@ {
            if node_type@ == "bitcoin"@ {
                "bitcoin_block_height"@
            } else {
                "sidechain_block_height"@
            }
        } else if method_type@ == "fee"@ && node_type@ == "bitcoin"@ {
            "bitcoin_min_fee"@
        } else {
            "sidechain_min_fee"@
        }),
        res.reads_fee == (method_type@ == "fee"@),
        res.bitcoin_height == (method_type@ == "blockheight"@ && node_type@ == "bitcoin"@),
{
    let blockheight = String::from_str("blockheight");
    let fee = String::from_str("fee");
    let bitcoin = String::from_str("bitcoin");
    let is_height = *method_type == blockheight;
    let is_fee = *method_type == fee;
    let is_bitcoin = *node_type == bitcoin;
    let rpc_method = if is_height {
        String::from_str("getblockcount")
    } else {
        String::from_str("getmempoolinfo")
    };
    let option_name = if is_height {
        if is_bitcoin {
            String::from_str("bitcoin_block_height")
        } else {
            String::from_str("sidechain_block_height")
        }
    } else if is_fee && is_bitcoin {
        String::from_str("bitcoin_min_fee")
    } else {
        String::from_str("sidechain_min_fee")
    };
    PoolRequest { rpc_method, option_name, reads_fee: is_fee, bitcoin_height: is_height && is_bitcoin }
}

/// The text a reported block height is stored as, and whether the turn of
/// the decision maker passes: Bitcoin's height changed from `current`.
pub fn height_update(request: &PoolRequest, current: u32, reported: u32) -> (res: (String, bool))
    ensures
        res.0@ == spec_decimal(reported as nat),
        res.1 == (request.bitcoin_height && current != reported),
{
    (u32_to_string(reported), request.bitcoin_height && current != reported)
}

// ---------------------------------------------------------------------------
// Query parameters of the transaction endpoints
// ---------------------------------------------------------------------------

/// The value of parameter `name` in `query`, as `QString` reads it.
pub open spec fn spec_query_value(query: Seq<char>, name: Seq<char>) -> Option<Seq<char>> {
    query_lookup(parsed_query(query), name)
}

/// The `text` parameter of the sum, fee and balance endpoints.
/// `query` must be one that `QString` can read (`query_parses`; test it with
/// `query_parsable`).
pub fn query_text(query: &str) -> (res: Option<String>)
    requires
        query_parses(query@),
    ensures
        res is Some <==> spec_query_value(query@, "text"@) is Some,
        res matches Some(t) ==> spec_query_value(query@, "text"@) == Some(t@),
{
    let qs = parse_query(query);
    query_get(&qs, "text")
}

/// The `start_date` and `end_date` parameters of the chart endpoints.
/// `query` must be one that `QString` can read (`query_parses`; test it with
/// `query_parsable`).
pub fn chart_range(query: &str) -> (res: Option<(String, String)>)
    requires
        query_parses(query@),
    ensures
        res is Some <==> (spec_query_value(query@, "start_date"@) is Some && spec_query_value(
            query@,
            "end_date"@,
        ) is Some),
        res matches Some((s, e)) ==> spec_query_value(query@, "start_date"@) == Some(s@)
            && spec_query_value(query@, "end_date"@) == Some(e@),
{
    let qs = parse_query(query);
    let start = query_get(&qs, "start_date");
    let end = query_get(&qs, "end_date");
    match (start, end) {
        (Some(s), Some(e)) => Some((s, e)),
        _ => None,
    }
}

/// The page number of the history endpoint: the first eight characters of
/// the `page` parameter (as `format!("{:.8}", ..)` keeps them) read as an `i64`.
pub open spec fn spec_history_page(page: Seq<char>) -> Option<i64> {
    spec_parse_i64(page.take(if page.len() < 8 {
        page.len() as int
    } else {
        8
    }))
}

/// The `(page, text, type)` parameters of the history endpoint; `None` when
/// one is missing or the page or type is no number.
/// `query` must be one that `QString` can read (`query_parses`; test it with
/// `query_parsable`).
pub fn history_params(query: &str) -> (res: Option<(i64, String, i64)>)
    requires
        query_parses(query@),
    ensures
        res is Some <==> ({
            &&& spec_query_value(query@, "page"@) matches Some(p) && spec_history_page(p) is Some
            &&& spec_query_value(query@, "text"@) is Some
            &&& spec_query_value(query@, "type"@) matches Some(t) && spec_parse_i64(t) is Some
        }),
        res matches Some((p, text, t)) ==> {
            &&& Some(p) == spec_history_page(spec_query_value(query@, "page"@)->0)
            &&& Some(text@) == spec_query_value(query@, "text"@)
            &&& Some(t) == spec_parse_i64(spec_query_value(query@, "type"@)->0)
        },
{
    let qs = parse_query(query);
    let size = query_get(&qs, "page");
    let text = query_get(&qs, "text");
    let search_type = query_get(&qs, "type");
    match (size, text, search_type) {
        (Some(size), Some(text), Some(search_type)) => {
            let n = size.as_str().unicode_len();
            let kept = if n < 8 {
                n
            } else {
                8
            };
            let page_text = size.as_str().substring_char(0, kept);
            assert(page_text@ == size@.take(kept as int));
            let page = parse_i64(page_text);
            let types = parse_i64(search_type.as_str());
            match (page, types) {
                (Ok(p), Ok(t)) => Some((p, text, t)),
                _ => None,
            }
        },
        _ => None,
    }
}

// ---------------------------------------------------------------------------
// Sums and spendable outputs
// ---------------------------------------------------------------------------

/// Whether the sum endpoints add up settled transfers: for the text
/// "completed" the sum covers transfers whose status is `Completed`, for any
/// other text those whose status is not.
pub fn sums_completed(text: &String) -> (res: bool)
    ensures
        res == (text@ == "completed"@),
{
    let completed = String::from_str("completed");
    *text == completed
}

/// Whether an unspent output mined at `output_height` may be spent at chain
/// height `current_height`: more than `threshold` blocks were mined since.
pub fn spendable(current_height: u32, output_height: u32, threshold: u32) -> (res: bool)
    requires
        output_height <= current_height,
    ensures
        res == (current_height - output_height > threshold),
{
    current_height - output_height > threshold
}

} // verus!
