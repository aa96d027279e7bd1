//! What the chain collector decides and words without arithmetic on real
//! numbers: how a reply of the node is read, and the texts of the signals
//! that rest on counts.

use vstd::prelude::*;
use vstd::string::StringExecFns;
use crate::text::{decimal, decimal_text};

verus! {

/// Why a call to the node gave no result.
#[derive(Debug)]
pub enum RpcFailure {
    /// The node reported an error, with this message.
    Node(String),
    /// The reply held neither a result nor an error.
    MissingResult,
}

/// Reads the reply of the node: an error outweighs a result, and a reply
/// without either is a failure of its own.
pub fn rpc_outcome<T>(result: Option<T>, error: Option<String>) -> (outcome: Result<T, RpcFailure>)
    ensures
        match outcome {
            Ok(value) => error is None && result == Some(value),
            Err(RpcFailure::Node(message)) => error == Some(message),
            Err(RpcFailure::MissingResult) => error is None && result is None,
        },
{
    match error {
        Some(message) => Err(RpcFailure::Node(message)),
        None => match result {
            Some(value) => Ok(value),
            None => Err(RpcFailure::MissingResult),
        },
    }
}

/// Describes how the figures of network performance were taken: as the
/// average over `samples` samples.
pub fn performance_description(samples: usize) -> (text: String)
    ensures
        text@ == "Average over "@ + decimal_text(samples as nat)
            + " recent samples. Non-vote TPS indicates real user activity vs consensus overhead."@,
{
    let mut text = String::from_str("Average over ");
    text.append(decimal(samples as u64).as_str());
    text.append(
        " recent samples. Non-vote TPS indicates real user activity vs consensus overhead.",
    );
    text
}

/// The description of the state of the epoch.
pub open spec fn epoch_text(
    slot_index: u64,
    slots_in_epoch: u64,
    absolute_slot: u64,
    transaction_count: Option<u64>,
) -> Seq<char> {
    "Slot "@ + decimal_text(slot_index as nat) + "/"@ + decimal_text(slots_in_epoch as nat)
        + ", absolute slot "@ + decimal_text(absolute_slot as nat) + ". "@
        + match transaction_count {
        Some(count) => "Total transactions: "@ + decimal_text(count as nat),
        None => Seq::empty(),
    }
}

/// Describes the state of the epoch.
pub fn epoch_description(
    slot_index: u64,
    slots_in_epoch: u64,
    absolute_slot: u64,
    transaction_count: Option<u64>,
) -> (text: String)
    ensures
        text@ == epoch_text(slot_index, slots_in_epoch, absolute_slot, transaction_count),
{
    let mut text = String::from_str("Slot ");
    text.append(decimal(slot_index).as_str());
    text.append("/");
    text.append(decimal(slots_in_epoch).as_str());
    text.append(", absolute slot ");
    text.append(decimal(absolute_slot).as_str());
    text.append(". ");
    match transaction_count {
        Some(count) => {
            text.append("Total transactions: ");
            text.append(decimal(count).as_str());
        },
        None => {
            assert(text@ =~= epoch_text(slot_index, slots_in_epoch, absolute_slot, None));
        },
    }
    text
}

/// The texts of the signal that reports the activity of one tracked
/// program.
#[derive(Debug)]
pub struct ProgramActivity {
    pub title: String,
    pub description: String,
    pub url: String,
}

/// Words the signal for a program that had `count` recent transactions.
pub fn program_activity(name: &str, address: &str, count: usize) -> (texts: ProgramActivity)
    ensures
        texts.title@ == name@ + ": "@ + decimal_text(count as nat) + " recent transactions"@,
        texts.description@ == "Program "@ + name@ + " ("@ + address@ + ") had "@ + decimal_text(
            count as nat,
        ) + " transactions in recent history."@,
        texts.url@ == "https://explorer.solana.com/address/"@ + address@,
{
    let number = decimal(count as u64);
    let mut title = name.to_owned();
    title.append(": ");
    title.append(number.as_str());
    title.append(" recent transactions");
    let mut description = String::from_str("Program ");
    description.append(name);
    description.append(" (");
    description.append(address);
    description.append(") had ");
    description.append(number.as_str());
    description.append(" transactions in recent history.");
    let mut url = String::from_str("https://explorer.solana.com/address/");
    url.append(address);
    ProgramActivity { title, description, url }
}

} // verus!
