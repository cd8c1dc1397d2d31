//! The records the engine works on.

use crate::amount::Amount;
use vstd::prelude::*;

verus! {

/// Where a raffle stands in its life. A raffle only ever moves forward:
/// created, then running, then closed.
#[derive(Clone, Copy, Debug, PartialEq, Eq, Structural)]
pub enum RaffleStatus {
    Created,
    Running,
    Closed,
}

impl RaffleStatus {
    /// The position of the status in a raffle's life.
    pub open spec fn rank(self) -> int {
        match self {
            RaffleStatus::Created => 0,
            RaffleStatus::Running => 1,
            RaffleStatus::Closed => 2,
        }
    }

    /// The name of the status.
    pub open spec fn name_text(self) -> Seq<char> {
        match self {
            RaffleStatus::Created => "created"@,
            RaffleStatus::Running => "running"@,
            RaffleStatus::Closed => "closed"@,
        }
    }

    /// The name of the status: `created`, `running` or `closed`.
    pub fn name(self) -> (text: String)
        ensures
            text@ == self.name_text(),
    {
        match self {
            RaffleStatus::Created => String::from_str("created"),
            RaffleStatus::Running => String::from_str("running"),
            RaffleStatus::Closed => String::from_str("closed"),
        }
    }

    /// The status that `text` names, if it names one.
    pub fn named(text: &String) -> (status: Option<RaffleStatus>)
        ensures
            match status {
                Some(status) => text@ == status.name_text(),
                None => forall|status: RaffleStatus| text@ != status.name_text(),
            },
    {
        if *text == String::from_str("created") {
            Some(RaffleStatus::Created)
        } else if *text == String::from_str("running") {
            Some(RaffleStatus::Running)
        } else if *text == String::from_str("closed") {
            Some(RaffleStatus::Closed)
        } else {
            None
        }
    }

    /// Whether a raffle in status `earlier` may be put into `self`:
    /// it may stay where it is or move forward, never back.
    pub fn may_follow(self, earlier: RaffleStatus) -> (allowed: bool)
        ensures
            allowed == (earlier.rank() <= self.rank()),
    {
        match earlier {
            RaffleStatus::Created => true,
            RaffleStatus::Running => match self {
                RaffleStatus::Created => false,
                _ => true,
            },
            RaffleStatus::Closed => match self {
                RaffleStatus::Closed => true,
                _ => false,
            },
        }
    }
}

/// A raffle: a fixed number of tickets sold at a fixed price for one token.
#[derive(Debug, PartialEq, Eq)]
pub struct Raffle {
    pub id: u128,
    pub title: String,
    pub description: String,
    pub status: RaffleStatus,
    /// The capacity: how many tickets the raffle may ever grant.
    pub ticket_amount: u16,
    pub ticket_price: Amount,
    pub ticket_token_name: String,
    pub rule: String,
    pub date_created: i64,
    pub date_updated: i64,
    /// How many tickets have been granted so far.
    pub tickets_sold: u16,
}

impl Raffle {
    /// Tickets that can still be granted.
    pub open spec fn remaining(self) -> int {
        self.ticket_amount - self.tickets_sold
    }
}

impl Clone for Raffle {
    fn clone(&self) -> (copy: Self)
        ensures
            copy == *self,
    {
        Raffle {
            id: self.id,
            title: self.title.clone(),
            description: self.description.clone(),
            status: self.status,
            ticket_amount: self.ticket_amount,
            ticket_price: self.ticket_price,
            ticket_token_name: self.ticket_token_name.clone(),
            rule: self.rule.clone(),
            date_created: self.date_created,
            date_updated: self.date_updated,
            tickets_sold: self.tickets_sold,
        }
    }
}

/// A purchase: tickets of one raffle granted for one payment.
#[derive(Debug, PartialEq, Eq)]
pub struct Ticket {
    pub id: u128,
    pub raffle_id: u128,
    pub username: String,
    /// The payment reference: the signature of the transaction that paid.
    pub spl_tx_signature: String,
    pub amount_send: Amount,
    /// How many tickets were granted.
    pub amount: u16,
    pub date_created: i64,
    pub date_updated: i64,
}

impl Clone for Ticket {
    fn clone(&self) -> (copy: Self)
        ensures
            copy == *self,
    {
        Ticket {
            id: self.id,
            raffle_id: self.raffle_id,
            username: self.username.clone(),
            spl_tx_signature: self.spl_tx_signature.clone(),
            amount_send: self.amount_send,
            amount: self.amount,
            date_created: self.date_created,
            date_updated: self.date_updated,
        }
    }
}

/// A token transfer as the block explorer reports it.
#[derive(Debug, PartialEq, Eq)]
pub struct SolanaTX {
    pub tx_signature: String,
    pub block_time: i64,
    pub source_owner: String,
    pub destination_owner: String,
    pub token_address: String,
    pub token_symbol: String,
    pub amount: Amount,
    pub status: String,
}

impl Clone for SolanaTX {
    fn clone(&self) -> (copy: Self)
        ensures
            copy == *self,
    {
        SolanaTX {
            tx_signature: self.tx_signature.clone(),
            block_time: self.block_time,
            source_owner: self.source_owner.clone(),
            destination_owner: self.destination_owner.clone(),
            token_address: self.token_address.clone(),
            token_symbol: self.token_symbol.clone(),
            amount: self.amount,
            status: self.status.clone(),
        }
    }
}

/// Why a transaction could not be had from the block explorer.
#[derive(Clone, Copy, Debug, PartialEq, Eq, Structural)]
pub enum FetchError {
    /// The explorer could not be reached.
    Network,
    /// The explorer answered with this status instead of success.
    Status(u16),
    /// The answer was not a transaction the engine can read.
    Malformed,
}

} // verus!
