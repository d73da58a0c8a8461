//! Watching both chains: which transaction outputs concern the federation,
//! how confirmations move a transfer's status, and the deposit and withdraw
//! listings.
use vstd::prelude::*;
use crate::text::{spec_like_pattern, spec_without_double_quotes, like_pattern, without_double_quotes, spec_hex_lower, hex_encode};

verus! {

/// An address the federation watches.
pub struct WalletAddress {
    pub address: String,
}

/// Status of a transfer recorded by the node.
#[derive(Clone, Copy, PartialEq, Eq, Structural, Debug)]
pub enum StatusType {
    Start,
    Inprogress,
    Completed,
}

impl StatusType {
    /// The name the status is stored under (its variant name).
    pub fn name(&self) -> (res: String)
        ensures
            res@ == match self {
                StatusType::Start => "Start"@,
                StatusType::Inprogress => "Inprogress"@,
                StatusType::Completed => "Completed"@,
            },
    {
        match self {
            StatusType::Start => String::from_str("Start"),
            StatusType::Inprogress => String::from_str("Inprogress"),
            StatusType::Completed => String::from_str("Completed"),
        }
    }
}

/// The kinds of transaction the node follows.
#[allow(non_camel_case_types)]
#[derive(Clone, Copy, PartialEq, Eq, Structural, Debug)]
pub enum TransactionType {
    DEPOSIT,
    WITHDRAW,
    MAINTRANSFER,
    PEGIN,
    PEGOUT,
}

/// Deposits and withdrawals are recorded output by output; the other kinds
/// are transactions the node sent itself and only waits to see confirmed.
pub open spec fn spec_tracks_outputs(t: TransactionType) -> bool {
    t == TransactionType::DEPOSIT || t == TransactionType::WITHDRAW
}

/// Where a transaction of some kind is recorded.
#[derive(Clone, Copy, PartialEq, Eq, Structural, Debug)]
pub enum Ledger {
    Deposits,
    Withdrawals,
}

/// Which status a confirmation updates.
#[derive(Clone, Copy, PartialEq, Eq, Structural, Debug)]
pub enum StatusTarget {
    /// `status` of the deposit with this transaction id.
    DepositStatus,
    /// `peg_status` of the deposits swept by this transaction.
    DepositPegStatus,
    /// `status` of the peg-in payout (object type "0") with this transaction id.
    PegInStatus,
    /// `status` of the peg-out payout (object type "1") with this transaction id.
    PegOutStatus,
    /// `status` of the withdrawal with this transaction id.
    WithdrawStatus,
}

impl TransactionType {
    /// The name the kind is known by (its variant name).
    pub fn name(&self) -> (res: String)
        ensures
            res@ == match self {
                TransactionType::DEPOSIT => "DEPOSIT"@,
                TransactionType::WITHDRAW => "WITHDRAW"@,
                TransactionType::MAINTRANSFER => "MAINTRANSFER"@,
                TransactionType::PEGIN => "PEGIN"@,
                TransactionType::PEGOUT => "PEGOUT"@,
            },
    {
        match self {
            TransactionType::DEPOSIT => String::from_str("DEPOSIT"),
            TransactionType::WITHDRAW => String::from_str("WITHDRAW"),
            TransactionType::MAINTRANSFER => String::from_str("MAINTRANSFER"),
            TransactionType::PEGIN => String::from_str("PEGIN"),
            TransactionType::PEGOUT => String::from_str("PEGOUT"),
        }
    }

    /// Whether transactions of this kind are recorded output by output.
    pub fn tracks_outputs(&self) -> (res: bool)
        ensures
            res == spec_tracks_outputs(*self),
    {
        match self {
            TransactionType::DEPOSIT => true,
            TransactionType::WITHDRAW => true,
            _ => false,
        }
    }

    /// The table a new transfer of this kind is saved in and looked up in:
    /// deposits for `DEPOSIT`, withdrawals for every other kind.
    pub fn ledger(&self) -> (res: Ledger)
        ensures
            res == (if *self == TransactionType::DEPOSIT {
                Ledger::Deposits
            } else {
                Ledger::Withdrawals
            }),
    {
        match self {
            TransactionType::DEPOSIT => Ledger::Deposits,
            _ => Ledger::Withdrawals,
        }
    }

    /// The status a confirmation of this kind of transaction updates.
    pub fn status_target(&self) -> (res: StatusTarget)
        ensures
            res == match *self {
                TransactionType::DEPOSIT => StatusTarget::DepositStatus,
                TransactionType::MAINTRANSFER => StatusTarget::DepositPegStatus,
                TransactionType::PEGIN => StatusTarget::PegInStatus,
                TransactionType::PEGOUT => StatusTarget::PegOutStatus,
                TransactionType::WITHDRAW => StatusTarget::WithdrawStatus,
            },
    {
        match self {
            TransactionType::DEPOSIT => StatusTarget::DepositStatus,
            TransactionType::MAINTRANSFER => StatusTarget::DepositPegStatus,
            TransactionType::PEGIN => StatusTarget::PegInStatus,
            TransactionType::PEGOUT => StatusTarget::PegOutStatus,
            TransactionType::WITHDRAW => StatusTarget::WithdrawStatus,
        }
    }
}

/// The kind under which peg payouts are checked for confirmations: `PEGOUT`
/// when `peg_type` is "pegout", `PEGIN` otherwise.
pub fn peg_confirmation_type(peg_type: &String) -> (res: TransactionType)
    ensures
        res == (if peg_type@ == "pegout"@ {
            TransactionType::PEGOUT
        } else {
            TransactionType::PEGIN
        }),
{
    let pegout = String::from_str("pegout");
    if *peg_type == pegout {
        TransactionType::PEGOUT
    } else {
        TransactionType::PEGIN
    }
}

/// A spending input of a transaction.
pub struct VinModel {
    pub vin_txid: String,
}

/// Paging and search of the deposit and withdraw listings.
pub struct QueryOptions {
    pub page: Option<usize>,
    pub search_term: String,
}

/// A row count.
pub struct TotalCount {
    pub cnt: u32,
}

// ---------------------------------------------------------------------------
// What a transaction seen on a chain changes
// ---------------------------------------------------------------------------

/// The change a transaction seen on a chain brings.
#[derive(PartialEq, Eq, Structural, Debug)]
pub enum TransactionCheck {
    /// Record the outputs that concern the federation as new transfers.
    RecordOutputs,
    /// Set the recorded transfer's status.
    UpdateStatus(StatusType),
    /// Nothing changes.
    Unchanged,
}

/// What a transaction of kind `t` changes: a deposit or withdrawal not yet
/// recorded has its outputs recorded; once recorded, it is `Completed` when
/// its confirmations (none counting as 0) exceed `max_confirmations`, else
/// `Inprogress`; a transaction of another kind is marked `Completed` past
/// that many confirmations and is otherwise left alone.
pub open spec fn spec_transaction_check(
    t: TransactionType,
    recorded: bool,
    confirmations: Option<u32>,
    max_confirmations: u32,
) -> TransactionCheck {
    let c = match confirmations {
        Some(c) => c,
        None => 0,
    };
    if spec_tracks_outputs(t) {
        if !recorded {
            TransactionCheck::RecordOutputs
        } else if c > max_confirmations {
            TransactionCheck::UpdateStatus(StatusType::Completed)
        } else {
            TransactionCheck::UpdateStatus(StatusType::Inprogress)
        }
    } else if c > max_confirmations {
        TransactionCheck::UpdateStatus(StatusType::Completed)
    } else {
        TransactionCheck::Unchanged
    }
}

/// Decides what a transaction seen on a chain changes (see
/// `spec_transaction_check`); `recorded` says whether a deposit or withdrawal
/// with its id is already recorded and is not looked at for other kinds.
pub fn transaction_check(
    tx_type: TransactionType,
    recorded: bool,
    confirmations: Option<u32>,
    max_confirmations: u32,
) -> (res: TransactionCheck)
    ensures
        res == spec_transaction_check(tx_type, recorded, confirmations, max_confirmations),
{
    let c = match confirmations {
        Some(c) => c,
        None => 0,
    };
    if tx_type.tracks_outputs() {
        if !recorded {
            TransactionCheck::RecordOutputs
        } else if c > max_confirmations {
            TransactionCheck::UpdateStatus(StatusType::Completed)
        } else {
            TransactionCheck::UpdateStatus(StatusType::Inprogress)
        }
    } else if c > max_confirmations {
        TransactionCheck::UpdateStatus(StatusType::Completed)
    } else {
        TransactionCheck::Unchanged
    }
}

/// Law: what confirmations do to each kind of transaction. A deposit or
/// withdrawal not yet recorded has its outputs recorded; once recorded, both
/// kinds alike become `Completed` exactly when the confirmations exceed
/// `max_confirmations` and are `Inprogress` otherwise. The node's own
/// transfers (master sweeps, peg-ins, peg-outs) become `Completed` exactly
/// past `max_confirmations` and are left alone before. Missing
/// confirmations count as none.
pub proof fn lemma_confirmations_settle_transfers(
    t: TransactionType,
    recorded: bool,
    c: u32,
    max_confirmations: u32,
)
    ensures
        (t == TransactionType::DEPOSIT || t == TransactionType::WITHDRAW) && !recorded
            ==> spec_transaction_check(t, recorded, Some(c), max_confirmations)
            == TransactionCheck::RecordOutputs,
        (t == TransactionType::DEPOSIT || t == TransactionType::WITHDRAW) && recorded ==> {
            &&& c > max_confirmations ==> spec_transaction_check(t, recorded, Some(c), max_confirmations)
                == TransactionCheck::UpdateStatus(StatusType::Completed)
            &&& c <= max_confirmations ==> spec_transaction_check(t, recorded, Some(c), max_confirmations)
                == TransactionCheck::UpdateStatus(StatusType::Inprogress)
        },
        spec_transaction_check(TransactionType::WITHDRAW, recorded, Some(c), max_confirmations)
            == spec_transaction_check(TransactionType::DEPOSIT, recorded, Some(c), max_confirmations),
        (t == TransactionType::MAINTRANSFER || t == TransactionType::PEGIN || t == TransactionType::PEGOUT)
            ==> {
            &&& c > max_confirmations ==> spec_transaction_check(t, recorded, Some(c), max_confirmations)
                == TransactionCheck::UpdateStatus(StatusType::Completed)
            &&& c <= max_confirmations ==> spec_transaction_check(t, recorded, Some(c), max_confirmations)
                == TransactionCheck::Unchanged
        },
        spec_transaction_check(t, recorded, None, max_confirmations) == spec_transaction_check(
            t,
            recorded,
            Some(0u32),
            max_confirmations,
        ),
{
}

/// Law: a deposit or withdrawal is recorded at most once; once recorded, a
/// later sighting only updates its status.
pub proof fn lemma_recorded_transfer_not_recorded_again(
    t: TransactionType,
    confirmations: Option<u32>,
    max_confirmations: u32,
)
    ensures
        spec_transaction_check(t, true, confirmations, max_confirmations)
            != TransactionCheck::RecordOutputs,
{
}

/// Law: the status a recorded transfer is given never goes back as its
/// confirmations grow: once `Completed`, more confirmations keep it so.
pub proof fn lemma_completion_is_monotonic(
    t: TransactionType,
    recorded: bool,
    fewer: u32,
    more: u32,
    max_confirmations: u32,
)
    requires
        fewer <= more,
        spec_transaction_check(t, recorded, Some(fewer), max_confirmations)
            == TransactionCheck::UpdateStatus(StatusType::Completed),
    ensures
        spec_transaction_check(t, recorded, Some(more), max_confirmations)
            == TransactionCheck::UpdateStatus(StatusType::Completed),
{
}

/// Whether an output paying `address` concerns the federation: for a deposit,
/// when the address is one of its wallet addresses; for a withdrawal, when it
/// is the withdraw address.
pub open spec fn output_concerns_federation(
    t: TransactionType,
    address: Seq<char>,
    wallet_addresses: Seq<Seq<char>>,
    withdraw_address: Seq<char>,
) -> bool {
    match t {
        TransactionType::DEPOSIT => wallet_addresses.contains(address),
        TransactionType::WITHDRAW => address == withdraw_address,
        _ => false,
    }
}

/// Positions of the outputs that concern the federation, in order.
pub open spec fn spec_outputs_to_record(
    t: TransactionType,
    outputs: Seq<Seq<char>>,
    wallet_addresses: Seq<Seq<char>>,
    withdraw_address: Seq<char>,
) -> Seq<usize>
    decreases outputs.len(),
{
    if outputs.len() == 0 {
        Seq::empty()
    } else {
        let prev = spec_outputs_to_record(t, outputs.drop_last(), wallet_addresses, withdraw_address);
        if output_concerns_federation(t, outputs.last(), wallet_addresses, withdraw_address) {
            prev.push((outputs.len() - 1) as usize)
        } else {
            prev
        }
    }
}

/// Law: the outputs recorded are exactly those that pay the federation (a
/// wallet address for a deposit, the withdraw address for a withdrawal),
/// each named once by its position, in order.
pub proof fn lemma_recorded_outputs_pay_the_federation(
    t: TransactionType,
    outputs: Seq<Seq<char>>,
    wallet_addresses: Seq<Seq<char>>,
    withdraw_address: Seq<char>,
)
    requires
        outputs.len() <= usize::MAX,
    ensures
        forall|k: int|
            #![trigger outputs[k]]
            0 <= k < outputs.len() && ((t == TransactionType::DEPOSIT && wallet_addresses.contains(outputs[k]))
                || (t == TransactionType::WITHDRAW && outputs[k] == withdraw_address)) ==> spec_outputs_to_record(
                t,
                outputs,
                wallet_addresses,
                withdraw_address,
            ).contains(k as usize),
        forall|i: int|
            #![trigger spec_outputs_to_record(t, outputs, wallet_addresses, withdraw_address)[i]]
            0 <= i < spec_outputs_to_record(t, outputs, wallet_addresses, withdraw_address).len() ==> {
                let k = spec_outputs_to_record(t, outputs, wallet_addresses, withdraw_address)[i] as int;
                &&& k < outputs.len()
                &&& (t == TransactionType::DEPOSIT && wallet_addresses.contains(outputs[k])) || (t
                    == TransactionType::WITHDRAW && outputs[k] == withdraw_address)
            },
        forall|i: int, j: int|
            0 <= i < j < spec_outputs_to_record(t, outputs, wallet_addresses, withdraw_address).len()
                ==> #[trigger] spec_outputs_to_record(t, outputs, wallet_addresses, withdraw_address)[i]
                < #[trigger] spec_outputs_to_record(t, outputs, wallet_addresses, withdraw_address)[j],
    decreases outputs.len(),
{
    if outputs.len() > 0 {
        let prev_out = outputs.drop_last();
        lemma_recorded_outputs_pay_the_federation(t, prev_out, wallet_addresses, withdraw_address);
        let prev = spec_outputs_to_record(t, prev_out, wallet_addresses, withdraw_address);
        let res = spec_outputs_to_record(t, outputs, wallet_addresses, withdraw_address);
        let last = (outputs.len() - 1) as usize;
        let concerns = output_concerns_federation(t, outputs.last(), wallet_addresses, withdraw_address);
        assert(concerns ==> res == prev.push(last));
        assert(!concerns ==> res == prev);
        assert forall|i: int| 0 <= i < res.len() implies {
            let k = #[trigger] res[i] as int;
            &&& k < outputs.len()
            &&& (t == TransactionType::DEPOSIT && wallet_addresses.contains(outputs[k])) || (t
                == TransactionType::WITHDRAW && outputs[k] == withdraw_address)
        } by {
            if i < prev.len() {
                assert(res[i] == prev[i]);
                assert(prev_out[prev[i] as int] == outputs[prev[i] as int]);
            } else {
                assert(res[i] == last);
                assert(outputs[last as int] == outputs.last());
            }
        }
        assert forall|i: int, j: int| 0 <= i < j < res.len() implies #[trigger] res[i] < #[trigger] res[j] by {
            assert(res[i] == prev[i]);
            if j < prev.len() {
                assert(res[j] == prev[j]);
            }
        }
        assert forall|k: int|
            #![trigger outputs[k]]
            0 <= k < outputs.len() && ((t == TransactionType::DEPOSIT && wallet_addresses.contains(outputs[k]))
                || (t == TransactionType::WITHDRAW && outputs[k] == withdraw_address)) implies res.contains(
            k as usize,
        ) by {
            if k < outputs.len() - 1 {
                assert(prev_out[k] == outputs[k]);
                assert(prev.contains(k as usize));
                let w = choose|w: int| 0 <= w < prev.len() && prev[w] == k as usize;
                assert(res[w] == prev[w]);
            } else {
                assert(outputs[k] == outputs.last());
                assert(res[prev.len() as int] == last);
            }
        }
    }
}

fn contains_address(addresses: &Vec<String>, address: &String) -> (res: bool)
    ensures
        res == addresses@.map_values(|a: String| a@).contains(address@),
{
    let ghost av = addresses@.map_values(|a: String| a@);
    let mut i: usize = 0;
    while i < addresses.len()
        invariant
            i <= addresses.len(),
            av == addresses@.map_values(|a: String| a@),
            forall|j: int| 0 <= j < i ==> av[j] != address@,
        decreases addresses.len() - i,
    {
        if addresses[i] == *address {
            assert(av[i as int] == address@);
            return true;
        }
        i = i + 1;
    }
    false
}

/// The positions of the outputs of a transaction of kind `tx_type` (paying
/// `output_addresses`, in order) that are to be recorded as transfers.
pub fn outputs_to_record(
    tx_type: TransactionType,
    output_addresses: &Vec<String>,
    wallet_addresses: &Vec<String>,
    withdraw_address: &String,
) -> (res: Vec<usize>)
    ensures
        res@ == spec_outputs_to_record(
            tx_type,
            output_addresses@.map_values(|a: String| a@),
            wallet_addresses@.map_values(|a: String| a@),
            withdraw_address@,
        ),
{
    let ghost ov = output_addresses@.map_values(|a: String| a@);
    let ghost wv = wallet_addresses@.map_values(|a: String| a@);
    let mut res: Vec<usize> = Vec::new();
    let mut i: usize = 0;
    while i < output_addresses.len()
        invariant
            i <= output_addresses.len(),
            ov == output_addresses@.map_values(|a: String| a@),
            wv == wallet_addresses@.map_values(|a: String| a@),
            res@ == spec_outputs_to_record(tx_type, ov.take(i as int), wv, withdraw_address@),
        decreases output_addresses.len() - i,
    {
        assert(ov.take(i + 1).drop_last() =~= ov.take(i as int));
        assert(ov.take(i + 1).last() == output_addresses@[i as int]@);
        let concerns = match tx_type {
            TransactionType::DEPOSIT => contains_address(wallet_addresses, &output_addresses[i]),
            TransactionType::WITHDRAW => output_addresses[i] == *withdraw_address,
            _ => false,
        };
        if concerns {
            res.push(i);
        }
        i = i + 1;
    }
    assert(ov.take(output_addresses.len() as int) =~= ov);
    res
}

/// The option that holds the last block height seen on the chain served at
/// `rpc`: Bitcoin's when `rpc` is the Bitcoin node's address, else the side
/// chain's.
pub fn block_height_option(rpc: &String, bitcoin_rpc: &String) -> (res: String)
    ensures
        res@ == (if rpc@ == bitcoin_rpc@ {
            "bitcoin_block_height"@
        } else {
            "sidechain_block_height"@
        }),
{
    if *rpc == *bitcoin_rpc {
        String::from_str("bitcoin_block_height")
    } else {
        String::from_str("sidechain_block_height")
    }
}

/// The transaction hash announced by a `hashtx` notification: the second
/// frame of the message, in lower-case hex.
pub fn zmq_transaction_hash(frames: &Vec<Vec<u8>>) -> (res: String)
    requires
        frames.len() >= 2,
    ensures
        res@ == spec_hex_lower(frames@[1]@),
{
    hex_encode(frames[1].as_slice())
}

// ---------------------------------------------------------------------------
// Deposit and withdraw listings
// ---------------------------------------------------------------------------

/// A page of the deposit or withdraw listing.
pub struct DepositListModel<T> {
    pub status: bool,
    pub message: String,
    #[allow(non_snake_case)]
    pub totalDocs: u32,
    pub result: Vec<T>,
}

/// Number of rows on a listing page.
pub const PAGE_SIZE: usize = 10;

/// Rows to skip for listing page `page` (pages count from 1; none given
/// means page 1).
pub open spec fn spec_page_offset(page: Option<usize>) -> int {
    let p = match page {
        Some(p) => p,
        None => 1,
    };
    (p - 1) * PAGE_SIZE
}

/// The `(limit, offset)` of a listing page.
pub fn page_window(page: Option<usize>) -> (res: (usize, usize))
    requires
        page != Some(0usize),
        spec_page_offset(page) <= usize::MAX,
    ensures
        res.0 == PAGE_SIZE,
        res.1 == spec_page_offset(page),
{
    let p = match page {
        Some(p) => p,
        None => 1,
    };
    (PAGE_SIZE, (p - 1) * PAGE_SIZE)
}

/// Law: listing pages tile the rows: the first page (also when no page is
/// given) starts at the first row, and page `p + 1` starts where the window
/// of page `p` ends.
pub proof fn lemma_listing_pages_are_adjacent(p: usize)
    requires
        1 <= p < usize::MAX,
    ensures
        spec_page_offset(None) == 0,
        spec_page_offset(Some(1usize)) == 0,
        spec_page_offset(Some((p + 1) as usize)) == spec_page_offset(Some(p)) + PAGE_SIZE,
{
}

/// The listing page built from its rows and the number of matching rows: a
/// page without rows is reported as a failure with a total of 0.
pub open spec fn spec_listing_ok<T>(model: DepositListModel<T>, result: Seq<T>, total_docs: u32) -> bool {
    &&& model.result@ == result
    &&& if result.len() == 0 {
        &&& !model.status
        &&& model.message@ == "Something went wrong"@
        &&& model.totalDocs == 0
    } else {
        &&& model.status
        &&& model.message@ == "Deposit list retreived successfully"@
        &&& model.totalDocs == total_docs
    }
}

fn listing<T>(result: Vec<T>, total_docs: u32) -> (res: DepositListModel<T>)
    ensures
        spec_listing_ok(res, result@, total_docs),
{
    if result.len() == 0 {
        DepositListModel {
            status: false,
            message: String::from_str("Something went wrong"),
            totalDocs: 0,
            result: result,
        }
    } else {
        DepositListModel {
            status: true,
            message: String::from_str("Deposit list retreived successfully"),
            totalDocs: total_docs,
            result: result,
        }
    }
}

/// The deposit listing page for the rows found and their total count.
pub fn list_deposits<T>(result: Vec<T>, total_docs: u32) -> (res: DepositListModel<T>)
    ensures
        spec_listing_ok(res, result@, total_docs),
{
    listing(result, total_docs)
}

/// The withdraw listing page for the rows found and their total count.
pub fn list_withdraws<T>(result: Vec<T>, total_docs: u32) -> (res: DepositListModel<T>)
    ensures
        spec_listing_ok(res, result@, total_docs),
{
    listing(result, total_docs)
}

/// The `LIKE` pattern a listing search uses: `None` for an empty search
/// term (no filter), else the term without double quotes, between `%`s.
pub fn list_search(search_term: &String) -> (res: Option<String>)
    ensures
        search_term@.len() == 0 ==> res is None,
        search_term@.len() > 0 ==> (res matches Some(p) && p@ == spec_like_pattern(
            spec_without_double_quotes(search_term@),
        )),
{
    if search_term.as_str().unicode_len() == 0 {
        None
    } else {
        let text = without_double_quotes(search_term.as_str());
        Some(like_pattern(text.as_str()))
    }
}

/// The text the withdraw count binds for a search: `None` for an empty term,
/// else the term without double quotes and without wildcards.
pub fn withdraw_count_search(search_term: &String) -> (res: Option<String>)
    ensures
        search_term@.len() == 0 ==> res is None,
        search_term@.len() > 0 ==> (res matches Some(p) && p@ == spec_without_double_quotes(search_term@)),
{
    if search_term.as_str().unicode_len() == 0 {
        None
    } else {
        Some(without_double_quotes(search_term.as_str()))
    }
}

} // verus!
