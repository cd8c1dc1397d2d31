//! Reading a transaction out of the block explorer's answer.
//!
//! The answer is a JSON document. JSON itself is read by the `json` crate;
//! which members make up a transaction, and what they have to hold, is
//! decided here.

use crate::amount::Amount;
use crate::model::{FetchError, SolanaTX};
use crate::text::{has_digit_run, holds_digit_run, i64_value, parse_i64};
use vstd::prelude::*;
use vstd::utf8::encode_utf8;

verus! {

/// A number with this many digits after its point is more than the JSON
/// reader can take.
pub const FRACTION_LIMIT: usize = 32768;

/// Whether `document` is safe to hand to the JSON reader: it holds no
/// `FRACTION_LIMIT` digits in a row. The reader counts the digits after a
/// decimal point in sixteen bits and fails on a longer run.
pub open spec fn reads_safely(document: Seq<char>) -> bool {
    !has_digit_run(encode_utf8(document), FRACTION_LIMIT as int)
}

/// Whether `document` is safe to hand to the JSON reader.
pub fn is_safe_to_read(document: &str) -> (safe: bool)
    ensures
        safe == reads_safely(document@),
{
    !holds_digit_run(document, FRACTION_LIMIT)
}

/// The characters of a text that may be missing.
pub open spec fn text_of(text: Option<String>) -> Option<Seq<char>> {
    match text {
        Some(text) => Some(text@),
        None => None,
    }
}

/// The member `key` of the JSON document `document`, as JSON text, as
/// `json_member` returns it: `None` where the document is not JSON.
pub uninterp spec fn json_member_text(document: Seq<char>, key: Seq<char>) -> Option<Seq<char>>;

/// The element at `index` of the JSON document `document`, as JSON text,
/// as `json_element` returns it: `None` where the document is not JSON.
pub uninterp spec fn json_element_text(document: Seq<char>, index: usize) -> Option<Seq<char>>;

/// What the JSON document `document` holds, as plain text, as
/// `json_display` returns it: `None` where the document is not JSON.
pub uninterp spec fn json_display_text(document: Seq<char>) -> Option<Seq<char>>;

/// Trusted: `json::parse`, then the value's index by a key, then
/// `JsonValue::dump`. Returns the member `key` of the object that
/// `document` spells, as JSON text again (`null` where the document spells
/// no object or the object has no such member), and `None` where `document`
/// is not JSON. All that is claimed is that the answer depends on the two
/// texts alone. A document with `FRACTION_LIMIT` digits in a row is kept
/// from the call: on a long enough fraction `json::parse` overflows its
/// exponent and panics.
#[verifier::external_body]
fn json_member(document: &str, key: &str) -> (member: Option<String>)
    requires
        reads_safely(document@),
    ensures
        text_of(member) == json_member_text(document@, key@),
{
    match json::parse(document) {
        Ok(value) => Some(value[key].dump()),
        Err(_) => None,
    }
}

/// Trusted: `json::parse`, then the value's index by a position, then
/// `JsonValue::dump`. Returns the element at `index` of the array that
/// `document` spells, as JSON text again (`null` where the document spells no
/// array or the array is shorter), and `None` where `document` is not JSON.
/// All that is claimed is that the answer depends on the text and the
/// position alone. A document with `FRACTION_LIMIT` digits in a row is kept
/// from the call: on a long enough fraction `json::parse` overflows its
/// exponent and panics.
#[verifier::external_body]
fn json_element(document: &str, index: usize) -> (element: Option<String>)
    requires
        reads_safely(document@),
    ensures
        text_of(element) == json_element_text(document@, index),
{
    match json::parse(document) {
        Ok(value) => Some(value[index].dump()),
        Err(_) => None,
    }
}

/// Trusted: `json::parse`, then the value's `to_string`. Returns what
/// `document` holds as plain text (a string without its quotes, a number in
/// digits, `null` for nothing), and `None` where `document` is not JSON. All
/// that is claimed is that the answer depends on the text alone. A document
/// with `FRACTION_LIMIT` digits in a row is kept from the call: on a long
/// enough fraction `json::parse` overflows its exponent and panics.
#[verifier::external_body]
fn json_display(document: &str) -> (shown: Option<String>)
    requires
        reads_safely(document@),
    ensures
        text_of(shown) == json_display_text(document@),
{
    match json::parse(document) {
        Ok(value) => Some(value.to_string()),
        Err(_) => None,
    }
}

/// The member `key` of a document that may be missing. A document that
/// is not safe to read has none.
pub open spec fn member_of(document: Option<Seq<char>>, key: Seq<char>) -> Option<Seq<char>> {
    match document {
        Some(document) => if reads_safely(document) {
            json_member_text(document, key)
        } else {
            None
        },
        None => None,
    }
}

/// The element at `index` of a document that may be missing. A document
/// that is not safe to read has none.
pub open spec fn element_of(document: Option<Seq<char>>, index: usize) -> Option<Seq<char>> {
    match document {
        Some(document) => if reads_safely(document) {
            json_element_text(document, index)
        } else {
            None
        },
        None => None,
    }
}

/// The plain text of a document that may be missing. A document that is
/// not safe to read has none.
pub open spec fn shown_of(document: Option<Seq<char>>) -> Option<Seq<char>> {
    match document {
        Some(document) => if reads_safely(document) {
            json_display_text(document)
        } else {
            None
        },
        None => None,
    }
}

/// The first token transfer of the answer `body`.
pub open spec fn first_transfer(body: Seq<char>) -> Option<Seq<char>> {
    element_of(member_of(Some(body), "tokenTransfers"@), 0)
}

/// The token of the first token transfer of the answer `body`.
pub open spec fn transferred_token(body: Seq<char>) -> Option<Seq<char>> {
    member_of(first_transfer(body), "token"@)
}

/// The texts that make up a transaction, as they stand in the answer.
#[derive(Debug, PartialEq, Eq)]
pub struct TransferFields {
    pub tx_hash: String,
    pub block_time: String,
    pub source_owner: String,
    pub destination_owner: String,
    pub token_address: String,
    pub token_symbol: String,
    pub amount: String,
    pub decimals: String,
    pub status: String,
}

impl TransferFields {
    /// Whether the fields are those of the answer `body`: each is the
    /// plain text of the member that it is named after.
    pub open spec fn taken_from(self, body: Seq<char>) -> bool {
        &&& Some(self.tx_hash@) == shown_of(member_of(Some(body), "txHash"@))
        &&& Some(self.block_time@) == shown_of(member_of(Some(body), "blockTime"@))
        &&& Some(self.source_owner@) == shown_of(member_of(first_transfer(body), "source_owner"@))
        &&& Some(self.destination_owner@) == shown_of(
            member_of(first_transfer(body), "destination_owner"@),
        )
        &&& Some(self.token_address@) == shown_of(member_of(transferred_token(body), "address"@))
        &&& Some(self.token_symbol@) == shown_of(member_of(transferred_token(body), "symbol"@))
        &&& Some(self.amount@) == shown_of(member_of(first_transfer(body), "amount"@))
        &&& Some(self.decimals@) == shown_of(member_of(transferred_token(body), "decimals"@))
        &&& Some(self.status@) == shown_of(member_of(Some(body), "status"@))
    }
}

/// Whether every text that makes up a transaction can be had from `body`.
pub open spec fn has_fields(body: Seq<char>) -> bool {
    &&& shown_of(member_of(Some(body), "txHash"@)) is Some
    &&& shown_of(member_of(Some(body), "blockTime"@)) is Some
    &&& shown_of(member_of(first_transfer(body), "source_owner"@)) is Some
    &&& shown_of(member_of(first_transfer(body), "destination_owner"@)) is Some
    &&& shown_of(member_of(transferred_token(body), "address"@)) is Some
    &&& shown_of(member_of(transferred_token(body), "symbol"@)) is Some
    &&& shown_of(member_of(first_transfer(body), "amount"@)) is Some
    &&& shown_of(member_of(transferred_token(body), "decimals"@)) is Some
    &&& shown_of(member_of(Some(body), "status"@)) is Some
}

/// The number of decimals that `text` spells: zero where it spells no
/// number that a `u32` holds.
pub open spec fn count_value(text: Seq<char>) -> u32 {
    match i64_value(text) {
        Some(count) => if 0 <= count <= u32::MAX {
            count as u32
        } else {
            0
        },
        None => 0,
    }
}

/// The units that `text` spells: zero where it spells no number that an
/// `i64` holds.
pub open spec fn units_value(text: Seq<char>) -> i64 {
    match i64_value(text) {
        Some(units) => units,
        None => 0,
    }
}

/// The transaction that the fields make up. The block time has to be a
/// number; an amount or a number of decimals that is none counts as zero.
pub open spec fn assembled(fields: TransferFields) -> Result<SolanaTX, FetchError> {
    match i64_value(fields.block_time@) {
        None => Err(FetchError::Malformed),
        Some(block_time) => Ok(
            SolanaTX {
                tx_signature: fields.tx_hash,
                block_time,
                source_owner: fields.source_owner,
                destination_owner: fields.destination_owner,
                token_address: fields.token_address,
                token_symbol: fields.token_symbol,
                amount: Amount {
                    units: units_value(fields.amount@),
                    decimals: count_value(fields.decimals@),
                },
                status: fields.status,
            },
        ),
    }
}

/// The member `key` of a document that may be missing.
fn member(document: &Option<String>, key: &str) -> (found: Option<String>)
    ensures
        text_of(found) == member_of(text_of(*document), key@),
{
    match document {
        Some(document) => {
            if is_safe_to_read(document.as_str()) {
                json_member(document.as_str(), key)
            } else {
                None
            }
        },
        None => None,
    }
}

/// The element at `index` of a document that may be missing.
fn element(document: &Option<String>, index: usize) -> (found: Option<String>)
    ensures
        text_of(found) == element_of(text_of(*document), index),
{
    match document {
        Some(document) => {
            if is_safe_to_read(document.as_str()) {
                json_element(document.as_str(), index)
            } else {
                None
            }
        },
        None => None,
    }
}

/// The plain text of the member `key` of a document that may be missing.
fn shown_member(document: &Option<String>, key: &str) -> (found: Option<String>)
    ensures
        text_of(found) == shown_of(member_of(text_of(*document), key@)),
{
    match member(document, key) {
        Some(member) => {
            if is_safe_to_read(member.as_str()) {
                json_display(member.as_str())
            } else {
                None
            }
        },
        None => None,
    }
}

/// Makes a transaction of the texts that stand in the answer: see
/// `assembled`.
pub fn assemble(fields: TransferFields) -> (tx: Result<SolanaTX, FetchError>)
    ensures
        tx == assembled(fields),
{
    let block_time = match parse_i64(fields.block_time.as_str()) {
        Some(block_time) => block_time,
        None => {
            return Err(FetchError::Malformed);
        },
    };
    let units: i64 = match parse_i64(fields.amount.as_str()) {
        Some(units) => units,
        None => 0,
    };
    let decimals: u32 = match parse_i64(fields.decimals.as_str()) {
        Some(count) => if 0 <= count && count <= 0xffff_ffff {
            count as u32
        } else {
            0
        },
        None => 0,
    };
    Ok(
        SolanaTX {
            tx_signature: fields.tx_hash,
            block_time,
            source_owner: fields.source_owner,
            destination_owner: fields.destination_owner,
            token_address: fields.token_address,
            token_symbol: fields.token_symbol,
            amount: Amount { units, decimals },
            status: fields.status,
        },
    )
}

/// Takes the texts that make up a transaction out of the answer `body`.
/// There are none where `body`, or a part of it on the way to a text, is
/// not JSON or not safe to read.
pub fn transfer_fields(body: &str) -> (fields: Option<TransferFields>)
    ensures
        fields is Some <==> has_fields(body@),
        fields matches Some(found) ==> found.taken_from(body@),
{
    let whole = Some(body.to_owned());
    let transfers = member(&whole, "tokenTransfers");
    let first = element(&transfers, 0);
    let token = member(&first, "token");
    let tx_hash = shown_member(&whole, "txHash");
    let block_time = shown_member(&whole, "blockTime");
    let source_owner = shown_member(&first, "source_owner");
    let destination_owner = shown_member(&first, "destination_owner");
    let token_address = shown_member(&token, "address");
    let token_symbol = shown_member(&token, "symbol");
    let amount = shown_member(&first, "amount");
    let decimals = shown_member(&token, "decimals");
    let status = shown_member(&whole, "status");
    match (
        tx_hash,
        block_time,
        source_owner,
        destination_owner,
        token_address,
        token_symbol,
        amount,
        decimals,
        status,
    ) {
        (
            Some(tx_hash),
            Some(block_time),
            Some(source_owner),
            Some(destination_owner),
            Some(token_address),
            Some(token_symbol),
            Some(amount),
            Some(decimals),
            Some(status),
        ) => Some(
            TransferFields {
                tx_hash,
                block_time,
                source_owner,
                destination_owner,
                token_address,
                token_symbol,
                amount,
                decimals,
                status,
            },
        ),
        _ => None,
    }
}

/// What the status of the explorer's answer says of the lookup: any status
/// but 200 is a failure under that status.
pub open spec fn refusal_of_status(status: u16) -> Option<FetchError> {
    if status == 200 {
        None
    } else {
        Some(FetchError::Status(status))
    }
}

/// Says whether the status of the explorer's answer fails the lookup: see
/// `refusal_of_status`.
pub fn status_refusal(status: u16) -> (refusal: Option<FetchError>)
    ensures
        refusal == refusal_of_status(status),
{
    if status == 200 {
        None
    } else {
        Some(FetchError::Status(status))
    }
}

/// Reads the transaction out of the answer `body`. An answer from which
/// the texts of a transaction cannot be had, or whose block time is no
/// number, is malformed.
pub fn parse_solana_tx(body: &str) -> (tx: Result<SolanaTX, FetchError>)
    ensures
        !has_fields(body@) ==> tx == Err::<SolanaTX, FetchError>(FetchError::Malformed),
        has_fields(body@) ==> exists|fields: TransferFields|
            fields.taken_from(body@) && tx == #[trigger] assembled(fields),
{
    match transfer_fields(body) {
        Some(fields) => assemble(fields),
        None => Err(FetchError::Malformed),
    }
}

} // verus!
