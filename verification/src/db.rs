//! The store of raffles and tickets, kept in memory, and the one operation
//! through which tickets are granted.
//!
//! `DatabaseRaffle` is the reference store: it does what `store` says, and
//! nothing else. A store that keeps the records in a database has to give the
//! same answers; `grant_verdict`, `refusal_of_missed_grant`,
//! `revision_refusal` and `removal_answer` say them from what such a store
//! has read.

use crate::ambient::{fresh_object_id, identifier_from, unix_time_now};
use crate::model::{Raffle, RaffleStatus, Ticket};
use crate::store::{
    lemma_granted_keeps_wf, lemma_one_index, lemma_one_reference_index, lemma_one_ticket_index,
    lemma_same_grants_keep_wf, lemma_same_identifiers_keep_wf, lemma_sold_total_bounds,
    lemma_sold_total_counts, lemma_sold_total_remove, tickets_of, StoreError, StoreState,
};
use vstd::prelude::*;

verus! {

/// Says why the raffle `stored` may not be revised by `raffle`, if it may
/// not: see `StoreState::refusal_of`.
pub fn revision_refusal(stored: &Raffle, raffle: &Raffle) -> (refusal: Option<StoreError>)
    ensures
        refusal == StoreState::refusal_of(*stored, *raffle),
{
    if raffle.ticket_amount != stored.ticket_amount {
        Some(StoreError::CapacityFixed)
    } else if !raffle.status.may_follow(stored.status) {
        Some(StoreError::StatusRegression)
    } else if raffle.ticket_price.units <= 0 {
        Some(StoreError::InvalidPrice)
    } else {
        None
    }
}

/// Says how a store is to answer an attempt to grant `amount` tickets,
/// from what was read in it, and how many tickets the raffle has sold after
/// the grant: see `StoreState::verdict_of_reads`.
pub fn grant_verdict(
    reference_used: bool,
    id_used: bool,
    stored: &Option<Raffle>,
    amount: u16,
    expected_sold: u16,
) -> (verdict: Result<u16, StoreError>)
    ensures
        match verdict {
            Ok(sold) => StoreState::verdict_of_reads(
                reference_used,
                id_used,
                *stored,
                amount,
                expected_sold,
            ) is Ok && sold == expected_sold + amount,
            Err(error) => StoreState::verdict_of_reads(
                reference_used,
                id_used,
                *stored,
                amount,
                expected_sold,
            ) == Err::<(), StoreError>(error),
        },
{
    if reference_used {
        return Err(StoreError::DuplicateKey);
    }
    let raffle = match stored {
        Some(raffle) => raffle,
        None => {
            return Err(StoreError::NotFound);
        },
    };
    if id_used {
        Err(StoreError::DuplicateId)
    } else if amount == 0 {
        Err(StoreError::EmptyTicket)
    } else if raffle.tickets_sold != expected_sold {
        Err(StoreError::VersionConflict)
    } else if raffle.ticket_amount < raffle.tickets_sold || amount > raffle.ticket_amount
        - raffle.tickets_sold {
        Err(StoreError::CapacityExceeded)
    } else {
        Ok(expected_sold + amount)
    }
}

/// Says why a grant found no raffle to change, from the raffle as it is
/// read afterwards: see `StoreState::missed_grant`.
pub fn refusal_of_missed_grant(stored: &Option<Raffle>, expected_sold: u16) -> (error: StoreError)
    ensures
        error == StoreState::missed_grant(*stored, expected_sold),
{
    match stored {
        None => StoreError::NotFound,
        Some(raffle) => if raffle.tickets_sold != expected_sold {
            StoreError::VersionConflict
        } else {
            StoreError::CapacityExceeded
        },
    }
}

/// Says how a store is to answer an attempt to remove a raffle, from the
/// raffle as it was read: see `StoreState::removal_of`.
pub fn removal_answer(stored: &Option<Raffle>) -> (answer: Result<bool, StoreError>)
    ensures
        answer == StoreState::removal_of(*stored),
{
    match stored {
        None => Ok(false),
        Some(raffle) => if raffle.tickets_sold > 0 {
            Err(StoreError::RaffleHasTickets)
        } else {
            Ok(true)
        },
    }
}

/// The store, kept in memory. It is the reference for every store that
/// keeps the records elsewhere: such a store has to answer an attempt to
/// grant as `StoreState::insert_verdict` says and to change as
/// `StoreState::after_attempt` says, in one step. All that this store holds
/// is reached through its methods, which keep `StoreState::wf`.
pub struct DatabaseRaffle {
    raffles: Vec<Raffle>,
    tickets: Vec<Ticket>,
}

impl View for DatabaseRaffle {
    type V = StoreState;

    closed spec fn view(&self) -> StoreState {
        StoreState { raffles: self.raffles@, tickets: self.tickets@ }
    }
}

impl DatabaseRaffle {
    /// An empty store.
    pub fn new() -> (store: Self)
        ensures
            store@.raffles.len() == 0,
            store@.tickets.len() == 0,
            store@.wf(),
    {
        DatabaseRaffle { raffles: Vec::new(), tickets: Vec::new() }
    }

    /// Where the raffle with this identifier is stored, if it is.
    fn raffle_position(&self, id: u128) -> (found: Option<usize>)
        ensures
            match found {
                Some(at) => at < self@.raffles.len() && self@.raffles[at as int].id == id,
                None => !self@.has_raffle(id),
            },
    {
        let mut at: usize = 0;
        while at < self.raffles.len()
            invariant
                at <= self.raffles.len(),
                forall|j: int| 0 <= j < at ==> (#[trigger] self.raffles@[j]).id != id,
            decreases self.raffles.len() - at,
        {
            if self.raffles[at].id == id {
                return Some(at);
            }
            at = at + 1;
        }
        None
    }

    /// Where the ticket with this identifier is stored, if it is.
    fn ticket_position(&self, id: u128) -> (found: Option<usize>)
        ensures
            match found {
                Some(at) => at < self@.tickets.len() && self@.tickets[at as int].id == id,
                None => !self@.has_ticket(id),
            },
    {
        let mut at: usize = 0;
        while at < self.tickets.len()
            invariant
                at <= self.tickets.len(),
                forall|j: int| 0 <= j < at ==> (#[trigger] self.tickets@[j]).id != id,
            decreases self.tickets.len() - at,
        {
            if self.tickets[at].id == id {
                return Some(at);
            }
            at = at + 1;
        }
        None
    }

    /// Where the ticket with this payment reference is stored, if it is.
    fn reference_position(&self, reference: &String) -> (found: Option<usize>)
        ensures
            match found {
                Some(at) => at < self@.tickets.len() && self@.tickets[at as int].spl_tx_signature@
                    == reference@,
                None => !self@.reference_used(reference@),
            },
    {
        let mut at: usize = 0;
        while at < self.tickets.len()
            invariant
                at <= self.tickets.len(),
                forall|j: int|
                    0 <= j < at ==> (#[trigger] self.tickets@[j]).spl_tx_signature@ != reference@,
            decreases self.tickets.len() - at,
        {
            if self.tickets[at].spl_tx_signature == *reference {
                return Some(at);
            }
            at = at + 1;
        }
        None
    }

    /// The raffle with this identifier, if one is stored.
    pub fn get_raffle_by_id(&self, id: u128) -> (found: Option<&Raffle>)
        requires
            self@.wf(),
        ensures
            found is Some <==> self@.has_raffle(id),
            found matches Some(raffle) ==> *raffle == self@.raffle(id) && raffle.id == id,
    {
        match self.raffle_position(id) {
            Some(at) => Some(&self.raffles[at]),
            None => None,
        }
    }

    /// Grants `ticket` in one step, on the condition that its raffle has
    /// sold `expected_sold` tickets: the ticket is stored as of `now`, its
    /// raffle counts it as sold, and the raffle closes if `close` is set.
    /// A refused attempt changes nothing.
    pub fn conditional_insert(
        &mut self,
        ticket: Ticket,
        expected_sold: u16,
        close: bool,
        now: i64,
    ) -> (answer: Result<(), StoreError>)
        requires
            old(self)@.wf(),
        ensures
            answer == old(self)@.insert_verdict(ticket, expected_sold),
            final(self)@ == old(self)@.after_attempt(ticket, expected_sold, close, now),
            final(self)@.wf(),
    {
        if self.reference_position(&ticket.spl_tx_signature).is_some() {
            return Err(StoreError::DuplicateKey);
        }
        let at = match self.raffle_position(ticket.raffle_id) {
            Some(at) => at,
            None => {
                return Err(StoreError::NotFound);
            },
        };
        proof {
            lemma_one_index(self@, ticket.raffle_id, at as int);
        }
        if self.ticket_position(ticket.id).is_some() {
            return Err(StoreError::DuplicateId);
        }
        if ticket.amount == 0 {
            return Err(StoreError::EmptyTicket);
        }
        let sold: u16 = self.raffles[at].tickets_sold;
        if sold != expected_sold {
            return Err(StoreError::VersionConflict);
        }
        if ticket.amount > self.raffles[at].ticket_amount - sold {
            return Err(StoreError::CapacityExceeded);
        }
        let ghost before = self@;
        let mut stored = ticket;
        stored.date_created = now;
        stored.date_updated = now;
        self.raffles[at].tickets_sold = sold + stored.amount;
        if close {
            self.raffles[at].status = RaffleStatus::Closed;
        }
        self.raffles[at].date_updated = now;
        self.tickets.push(stored);
        proof {
            assert(stored == StoreState::stamped(ticket, now));
            assert(self@.raffles =~= before.granted(ticket, close, now).raffles);
            assert(self@ == before.granted(ticket, close, now));
            lemma_granted_keeps_wf(before, ticket, expected_sold, close, now);
        }
        Ok(())
    }

    /// Every raffle, in the order in which they were added.
    pub fn get_all_raffles(&self) -> (all: &Vec<Raffle>)
        ensures
            all@ == self@.raffles,
    {
        &self.raffles
    }

    /// Every ticket, in the order in which they were granted.
    pub fn get_all_tickets(&self) -> (all: &Vec<Ticket>)
        ensures
            all@ == self@.tickets,
    {
        &self.tickets
    }

    /// The ticket with this identifier, if one is stored.
    pub fn get_ticket_by_id(&self, id: u128) -> (found: Option<&Ticket>)
        requires
            self@.wf(),
        ensures
            found is Some <==> self@.has_ticket(id),
            found matches Some(ticket) ==> *ticket == self@.tickets[self@.ticket_index(id)]
                && ticket.id == id,
    {
        match self.ticket_position(id) {
            Some(at) => {
                proof {
                    lemma_one_ticket_index(self@, id, at as int);
                }
                Some(&self.tickets[at])
            },
            None => None,
        }
    }

    /// The ticket that this payment reference has bought, if it has bought
    /// one.
    pub fn get_spl_tx_in_ticket(&self, spl_tx_signature: &String) -> (found: Option<&Ticket>)
        requires
            self@.wf(),
        ensures
            found is Some <==> self@.reference_used(spl_tx_signature@),
            found matches Some(ticket) ==> *ticket == self@.tickets[self@.reference_index(
                spl_tx_signature@,
            )] && ticket.spl_tx_signature@ == spl_tx_signature@,
    {
        match self.reference_position(spl_tx_signature) {
            Some(at) => {
                proof {
                    lemma_one_reference_index(self@, spl_tx_signature@, at as int);
                }
                Some(&self.tickets[at])
            },
            None => None,
        }
    }

    /// The tickets of one raffle, in the order in which they were granted.
    pub fn get_tickets_by_id_raffle(&self, id: u128) -> (found: Vec<Ticket>)
        ensures
            found@ == tickets_of(self@.tickets, id),
    {
        let mut found: Vec<Ticket> = Vec::new();
        let mut at: usize = 0;
        proof {
            assert(self.tickets@.take(0) =~= Seq::<Ticket>::empty());
        }
        while at < self.tickets.len()
            invariant
                at <= self.tickets.len(),
                found@ == tickets_of(self.tickets@.take(at as int), id),
            decreases self.tickets.len() - at,
        {
            proof {
                let next = self.tickets@.take(at + 1);
                assert(next.drop_last() =~= self.tickets@.take(at as int));
                assert(next.last() == self.tickets@[at as int]);
            }
            if self.tickets[at].raffle_id == id {
                found.push(self.tickets[at].clone());
            }
            at = at + 1;
        }
        proof {
            assert(self.tickets@.take(at as int) =~= self.tickets@);
        }
        found
    }

    /// Adds `raffle` under the identifier `id` as created at `now`, with no
    /// ticket sold, and writes identifier, status and times back into
    /// `raffle`. A raffle with a price that is not positive, or under an
    /// identifier that is taken, is refused and nothing changes.
    pub fn insert_raffle_at(&mut self, raffle: &mut Raffle, id: u128, now: i64) -> (answer: Result<
        (),
        StoreError,
    >)
        requires
            old(self)@.wf(),
        ensures
            answer == old(self)@.raffle_verdict(*old(raffle), id),
            final(self)@ == old(self)@.after_raffle(*old(raffle), id, now),
            answer is Ok ==> *final(raffle) == StoreState::opened(*old(raffle), id, now),
            answer is Err ==> *final(raffle) == *old(raffle),
            final(self)@.wf(),
    {
        if raffle.ticket_price.units <= 0 {
            return Err(StoreError::InvalidPrice);
        }
        if self.raffle_position(id).is_some() {
            return Err(StoreError::DuplicateId);
        }
        let ghost before = self@;
        raffle.id = id;
        raffle.status = RaffleStatus::Created;
        raffle.date_created = now;
        raffle.date_updated = now;
        raffle.tickets_sold = 0;
        self.raffles.push(raffle.clone());
        proof {
            let after = self@;
            assert(after.tickets == before.tickets);
            assert forall|i: int| 0 <= i < after.tickets.len() implies (
            #[trigger] after.tickets[i]).raffle_id != id && after.has_raffle(
                after.tickets[i].raffle_id,
            ) by {
                let wanted = before.tickets[i].raffle_id;
                assert(before.has_raffle(wanted));
                let k = choose|k: int|
                    0 <= k < before.raffles.len() && (#[trigger] before.raffles[k]).id == wanted;
                assert(after.raffles[k].id == wanted);
            }
            lemma_sold_total_bounds(after.tickets, id);
            assert forall|i: int| 0 <= i < after.raffles.len() implies {
                &&& (#[trigger] after.raffles[i]).ticket_price.units > 0
                &&& after.raffles[i].tickets_sold == after.sold(after.raffles[i].id)
                &&& after.raffles[i].tickets_sold <= after.raffles[i].ticket_amount
            } by {
                if i < before.raffles.len() {
                    assert(after.raffles[i] == before.raffles[i]);
                }
            }
            assert forall|i: int, j: int| 0 <= i < j < after.raffles.len() implies (
            #[trigger] after.raffles[i]).id != (#[trigger] after.raffles[j]).id by {
                if j == before.raffles.len() {
                    assert(before.raffles[i].id != id);
                }
            }
        }
        Ok(())
    }

    /// Revises the stored raffle `raffle.id` at `now`: title, description,
    /// status, price, token and rule are taken from `raffle`. Says whether
    /// the raffle was found. A change of capacity, a step back in status and
    /// a price that is not positive are refused, and nothing changes.
    pub fn update_raffle_at(&mut self, raffle: &Raffle, now: i64) -> (answer: Result<bool, StoreError>)
        requires
            old(self)@.wf(),
        ensures
            answer == old(self)@.revision_verdict(*raffle),
            final(self)@ == old(self)@.after_revision(*raffle, now),
            final(self)@.wf(),
    {
        let at = match self.raffle_position(raffle.id) {
            Some(at) => at,
            None => {
                return Ok(false);
            },
        };
        proof {
            lemma_one_index(self@, raffle.id, at as int);
        }
        match revision_refusal(&self.raffles[at], raffle) {
            Some(refusal) => {
                return Err(refusal);
            },
            None => {},
        }
        let ghost before = self@;
        self.raffles[at].title = raffle.title.clone();
        self.raffles[at].description = raffle.description.clone();
        self.raffles[at].status = raffle.status;
        self.raffles[at].ticket_price = raffle.ticket_price;
        self.raffles[at].ticket_token_name = raffle.ticket_token_name.clone();
        self.raffles[at].rule = raffle.rule.clone();
        self.raffles[at].date_updated = now;
        proof {
            let after = self@;
            assert(after.raffles =~= before.after_revision(*raffle, now).raffles);
            lemma_same_identifiers_keep_wf(before, after);
        }
        Ok(true)
    }

    /// Gives the stored ticket `ticket.id` the user name of `ticket`, and
    /// says whether the ticket was found. Nothing else of a ticket can be
    /// changed.
    pub fn update_ticket(&mut self, ticket: &Ticket) -> (found: bool)
        requires
            old(self)@.wf(),
        ensures
            found == old(self)@.has_ticket(ticket.id),
            final(self)@ == old(self)@.after_rename(*ticket),
            final(self)@.wf(),
    {
        let at = match self.ticket_position(ticket.id) {
            Some(at) => at,
            None => {
                return false;
            },
        };
        let ghost before = self@;
        proof {
            lemma_one_ticket_index(before, ticket.id, at as int);
        }
        self.tickets[at].username = ticket.username.clone();
        proof {
            let after = self@;
            assert(after.tickets =~= before.after_rename(*ticket).tickets);
            assert forall|i: int| 0 <= i < after.tickets.len() implies {
                &&& (#[trigger] after.tickets[i]).id == before.tickets[i].id
                &&& after.tickets[i].raffle_id == before.tickets[i].raffle_id
                &&& after.tickets[i].amount == before.tickets[i].amount
                &&& after.tickets[i].spl_tx_signature == before.tickets[i].spl_tx_signature
            } by {}
            lemma_same_grants_keep_wf(before, after);
        }
        true
    }

    /// Removes the raffle `id` and says whether it was found. A raffle
    /// that has sold tickets is not removed: its tickets would name a
    /// raffle that is gone.
    pub fn remove_raffle(&mut self, id: u128) -> (answer: Result<bool, StoreError>)
        requires
            old(self)@.wf(),
        ensures
            answer == old(self)@.removal_verdict(id),
            final(self)@ == old(self)@.after_removal(id),
            final(self)@.wf(),
    {
        let at = match self.raffle_position(id) {
            Some(at) => at,
            None => {
                return Ok(false);
            },
        };
        proof {
            lemma_one_index(self@, id, at as int);
        }
        if self.raffles[at].tickets_sold > 0 {
            return Err(StoreError::RaffleHasTickets);
        }
        let ghost before = self@;
        self.raffles.remove(at);
        proof {
            let after = self@;
            assert(after.raffles =~= before.raffles.remove(at as int));
            assert forall|i: int| 0 <= i < after.tickets.len() implies (
            #[trigger] after.tickets[i]).amount > 0 && after.has_raffle(
                after.tickets[i].raffle_id,
            ) by {
                let wanted = before.tickets[i].raffle_id;
                if wanted == id {
                    lemma_sold_total_counts(before.tickets, id, i);
                }
                assert(before.has_raffle(wanted));
                let k = choose|k: int|
                    0 <= k < before.raffles.len() && (#[trigger] before.raffles[k]).id == wanted;
                if k < at {
                    assert(after.raffles[k].id == wanted);
                } else {
                    assert(after.raffles[k - 1].id == wanted);
                }
            }
            assert forall|i: int, j: int| 0 <= i < j < after.raffles.len() implies (
            #[trigger] after.raffles[i]).id != (#[trigger] after.raffles[j]).id by {
                let bi = if i < at { i } else { i + 1 };
                let bj = if j < at { j } else { j + 1 };
                assert(before.raffles[bi].id != before.raffles[bj].id);
            }
            assert forall|i: int| 0 <= i < after.raffles.len() implies {
                &&& (#[trigger] after.raffles[i]).ticket_price.units > 0
                &&& after.raffles[i].tickets_sold == after.sold(after.raffles[i].id)
                &&& after.raffles[i].tickets_sold <= after.raffles[i].ticket_amount
            } by {
                let bi = if i < at { i } else { i + 1 };
                assert(after.raffles[i] == before.raffles[bi]);
            }
        }
        Ok(true)
    }

    /// Takes the ticket `id` out and says whether it was found. What the
    /// ticket granted counts as sold no longer; a raffle that had closed
    /// stays closed.
    pub fn remove_ticket(&mut self, id: u128) -> (found: bool)
        requires
            old(self)@.wf(),
        ensures
            found == old(self)@.has_ticket(id),
            final(self)@ == old(self)@.after_refund(id),
            final(self)@.wf(),
    {
        let at = match self.ticket_position(id) {
            Some(at) => at,
            None => {
                return false;
            },
        };
        let ghost before = self@;
        let of_raffle: u128 = self.tickets[at].raffle_id;
        let amount: u16 = self.tickets[at].amount;
        proof {
            lemma_one_ticket_index(before, id, at as int);
            assert(before.has_raffle(before.tickets[at as int].raffle_id));
        }
        let of = match self.raffle_position(of_raffle) {
            Some(of) => of,
            // every stored ticket names a stored raffle
            None => {
                return true;
            },
        };
        proof {
            lemma_one_index(before, of_raffle, of as int);
            lemma_sold_total_counts(before.tickets, of_raffle, at as int);
        }
        self.raffles[of].tickets_sold = self.raffles[of].tickets_sold - amount;
        self.tickets.remove(at);
        proof {
            let after = self@;
            assert(after.tickets =~= before.tickets.remove(at as int));
            assert(after.raffles =~= before.after_refund(id).raffles);
            assert forall|i: int| 0 <= i < after.raffles.len() implies (
            #[trigger] after.raffles[i]).id == before.raffles[i].id by {}
            assert forall|i: int| 0 <= i < after.tickets.len() implies (
            #[trigger] after.tickets[i]).amount > 0 && after.has_raffle(
                after.tickets[i].raffle_id,
            ) by {
                let bi = if i < at { i } else { i + 1 };
                assert(after.tickets[i] == before.tickets[bi]);
                let wanted = before.tickets[bi].raffle_id;
                assert(before.has_raffle(wanted));
                let k = choose|k: int|
                    0 <= k < before.raffles.len() && (#[trigger] before.raffles[k]).id == wanted;
                assert(after.raffles[k].id == wanted);
            }
            assert forall|i: int, j: int| 0 <= i < j < after.tickets.len() implies (
            #[trigger] after.tickets[i]).id != (#[trigger] after.tickets[j]).id by {
                let bi = if i < at { i } else { i + 1 };
                let bj = if j < at { j } else { j + 1 };
                assert(before.tickets[bi].id != before.tickets[bj].id);
            }
            assert forall|i: int, j: int| 0 <= i < j < after.tickets.len() implies (
            #[trigger] after.tickets[i]).spl_tx_signature@ != (
            #[trigger] after.tickets[j]).spl_tx_signature@ by {
                let bi = if i < at { i } else { i + 1 };
                let bj = if j < at { j } else { j + 1 };
                assert(before.tickets[bi].spl_tx_signature@ != before.tickets[bj].spl_tx_signature@);
            }
            assert forall|i: int| 0 <= i < after.raffles.len() implies {
                &&& (#[trigger] after.raffles[i]).ticket_price.units > 0
                &&& after.raffles[i].tickets_sold == after.sold(after.raffles[i].id)
                &&& after.raffles[i].tickets_sold <= after.raffles[i].ticket_amount
            } by {
                lemma_sold_total_remove(before.tickets, at as int, before.raffles[i].id);
                if i != of {
                    if i < of {
                        assert(before.raffles[i].id != before.raffles[of as int].id);
                    } else {
                        assert(before.raffles[of as int].id != before.raffles[i].id);
                    }
                    assert(after.raffles[i] == before.raffles[i]);
                }
            }
        }
        true
    }

    /// Grants `ticket` as of `now` against the raffle as it stands, and
    /// writes the times back into `ticket`. The raffle closes when the grant
    /// uses it up. The store refuses as `conditional_insert` does, but for
    /// a conflict, which cannot arise; a refused ticket changes nothing.
    pub fn insert_ticket_at(&mut self, ticket: &mut Ticket, now: i64) -> (answer: Result<(), StoreError>)
        requires
            old(self)@.wf(),
        ensures
            answer == old(self)@.insert_verdict(
                *old(ticket),
                old(self)@.counted(old(ticket).raffle_id),
            ),
            final(self)@ == old(self)@.after_attempt(
                *old(ticket),
                old(self)@.counted(old(ticket).raffle_id),
                old(self)@.uses_up(old(ticket).raffle_id, old(ticket).amount),
                now,
            ),
            answer is Ok ==> *final(ticket) == StoreState::stamped(*old(ticket), now),
            answer is Err ==> *final(ticket) == *old(ticket),
            final(self)@.wf(),
    {
        let (sold, close): (u16, bool) = match self.raffle_position(ticket.raffle_id) {
            Some(at) => {
                proof {
                    lemma_one_index(self@, ticket.raffle_id, at as int);
                }
                let sold: u16 = self.raffles[at].tickets_sold;
                (sold, self.raffles[at].ticket_amount - sold == ticket.amount)
            },
            None => (0, false),
        };
        let answer = self.conditional_insert(ticket.clone(), sold, close, now);
        if answer.is_ok() {
            ticket.date_created = now;
            ticket.date_updated = now;
        }
        answer
    }

    /// Adds `raffle` under a fresh identifier, as created at the present
    /// time: see `insert_raffle_at`, which it calls with an identifier and a
    /// time of which nothing is known beforehand.
    pub fn insert_raffle(&mut self, raffle: &mut Raffle) -> (answer: Result<(), StoreError>)
        requires
            old(self)@.wf(),
        ensures
            exists|id: u128, now: i64|
                {
                    &&& answer == old(self)@.raffle_verdict(*old(raffle), id)
                    &&& final(self)@ == #[trigger] old(self)@.after_raffle(*old(raffle), id, now)
                    &&& answer is Ok ==> *final(raffle) == StoreState::opened(*old(raffle), id, now)
                    &&& answer is Err ==> *final(raffle) == *old(raffle)
                },
            final(self)@.wf(),
    {
        let now = unix_time_now();
        let bytes = fresh_object_id();
        let id = identifier_from(&bytes);
        self.insert_raffle_at(raffle, id, now)
    }

    /// Grants `ticket` as of the present time: see `insert_ticket_at`,
    /// which it calls with a time of which nothing is known beforehand.
    pub fn insert_ticket(&mut self, ticket: &mut Ticket) -> (answer: Result<(), StoreError>)
        requires
            old(self)@.wf(),
        ensures
            answer == old(self)@.insert_verdict(
                *old(ticket),
                old(self)@.counted(old(ticket).raffle_id),
            ),
            exists|now: i64|
                {
                    &&& final(self)@ == #[trigger] old(self)@.after_attempt(
                        *old(ticket),
                        old(self)@.counted(old(ticket).raffle_id),
                        old(self)@.uses_up(old(ticket).raffle_id, old(ticket).amount),
                        now,
                    )
                    &&& answer is Ok ==> *final(ticket) == StoreState::stamped(*old(ticket), now)
                },
            answer is Err ==> *final(ticket) == *old(ticket),
            final(self)@.wf(),
    {
        let now = unix_time_now();
        self.insert_ticket_at(ticket, now)
    }

    /// Revises the stored raffle `raffle.id` as of the present time, and
    /// writes that time into `raffle`: see `update_raffle_at`, which it calls
    /// with a time of which nothing is known beforehand.
    pub fn update_raffle(&mut self, raffle: &mut Raffle) -> (answer: Result<bool, StoreError>)
        requires
            old(self)@.wf(),
        ensures
            answer == old(self)@.revision_verdict(*old(raffle)),
            exists|now: i64|
                {
                    &&& final(self)@ == #[trigger] old(self)@.after_revision(*old(raffle), now)
                    &&& *final(raffle) == (Raffle { date_updated: now, ..*old(raffle) })
                },
            final(self)@.wf(),
    {
        let now = unix_time_now();
        raffle.date_updated = now;
        let answer = self.update_raffle_at(raffle, now);
        proof {
            assert(old(self)@.after_revision(*raffle, now) == old(self)@.after_revision(
                *old(raffle),
                now,
            ));
        }
        answer
    }
}

} // verus!
