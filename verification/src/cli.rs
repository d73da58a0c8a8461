//! Requests to the wallet command-line tool and the reading of its replies.
use vstd::prelude::*;
use crate::text::{spec_decimal, u32_to_string};
use crate::transaction::SignDTO;

verus! {

/// The reply of the wallet tool: whether the command succeeded, and its output.
pub struct CLIResponseModel {
    pub status: bool,
    pub result: String,
}

/// Derive the public key at `index` from the extended key `mnemonic`.
pub struct KeyRequestDTO {
    pub index: String,
    pub mnemonic: String,
}

/// Derive the public key of a mnemonic.
pub struct PubRequestDTO {
    pub mnemonic: String,
}

/// Build the multisig deposit address of `addresses` on `network`.
pub struct DepositRequestDTO {
    pub addresses: Vec<String>,
    pub network: String,
}

/// Sign the transaction `hex` with the key at `index` of `mnemonic`.
pub struct SignatureRequestDTO {
    pub index: String,
    pub mnemonic: String,
    pub hex: String,
}

/// Finalize the fully signed transaction `hex`.
pub struct FinalizeRequestDTO {
    pub hex: String,
}

/// List the spending paths of the multisig script over `pubkeys`.
pub struct RedeemRequestDTO {
    pub pubkeys: Vec<String>,
}

/// The output of a command that must report success: its result when the
/// tool ran and reported success, else "".
pub open spec fn spec_cli_output(response: Option<(bool, Seq<char>)>) -> Seq<char> {
    match response {
        Some((true, result)) => result,
        _ => Seq::empty(),
    }
}

/// The text handed back by a tool command (deposit address, transaction,
/// signature, finalized transaction, spending paths): the result when the
/// tool ran (`Some`) and reported success, else "".
pub fn cli_output(response: Option<CLIResponseModel>) -> (res: String)
    ensures
        res@ == spec_cli_output(
            match response {
                Some(r) => Some((r.status, r.result@)),
                None => None,
            },
        ),
{
    match response {
        Some(r) => {
            if r.status {
                r.result
            } else {
                String::new()
            }
        },
        None => String::new(),
    }
}

/// The public key handed back by the key derivation command: its result
/// whenever the tool ran, whatever status it reported, else "".
pub fn cli_key_output(response: Option<CLIResponseModel>) -> (res: String)
    ensures
        res@ == match response {
            Some(r) => r.result@,
            None => Seq::empty(),
        },
{
    match response {
        Some(r) => r.result,
        None => String::new(),
    }
}

/// The request deriving the key of `xpub_key` for account `account_number`.
pub fn key_request(account_number: u32, xpub_key: String) -> (res: KeyRequestDTO)
    ensures
        res.index@ == spec_decimal(account_number as nat),
        res.mnemonic@ == xpub_key@,
{
    KeyRequestDTO { index: u32_to_string(account_number), mnemonic: xpub_key }
}

/// The signature request for `params`, or `None` while no admin peer is
/// recorded (the node then signs nothing).
pub fn sign_request(params: &SignDTO, admin_peer: &String, mnemonic: String) -> (res: Option<
    SignatureRequestDTO,
>)
    ensures
        admin_peer@.len() == 0 <==> res is None,
        res matches Some(r) ==> r.index@ == params.index@ && r.hex@ == params.hex@ && r.mnemonic@
            == mnemonic@,
{
    if admin_peer.as_str().unicode_len() == 0 {
        None
    } else {
        Some(
            SignatureRequestDTO {
                index: params.index.clone(),
                mnemonic: mnemonic,
                hex: params.hex.clone(),
            },
        )
    }
}

} // verus!
