//! What the store holds and by which rules it changes.
//!
//! The store is described as a value: its raffles and its tickets. Every
//! change is a function from one such value to the next, and `StoreState::wf`
//! says what holds of every value that the store can reach.

use crate::model::{Raffle, RaffleStatus, Ticket};
use vstd::prelude::*;

verus! {

/// Why the store refused a change.
#[derive(Clone, Copy, Debug, PartialEq, Eq, Structural)]
pub enum StoreError {
    /// The payment reference has bought a ticket already.
    DuplicateKey,
    /// A record with this identifier is stored already.
    DuplicateId,
    /// The raffle that the ticket names is not stored.
    NotFound,
    /// The raffle has sold another number of tickets than the caller saw.
    VersionConflict,
    /// The raffle has not that many tickets left.
    CapacityExceeded,
    /// A ticket has to grant at least one ticket.
    EmptyTicket,
    /// A ticket price has to be greater than zero.
    InvalidPrice,
    /// A raffle never goes back to an earlier status.
    StatusRegression,
    /// A raffle's capacity is fixed when it is created.
    CapacityFixed,
    /// A raffle that has sold tickets cannot be removed.
    RaffleHasTickets,
    /// The store could not be reached, or failed while it worked.
    Unavailable,
}

/// The tickets that `tickets` grant of the raffle `raffle_id`, added up.
pub open spec fn sold_total(tickets: Seq<Ticket>, raffle_id: u128) -> int
    decreases tickets.len(),
{
    if tickets.len() == 0 {
        0
    } else {
        sold_total(tickets.drop_last(), raffle_id) + (if tickets.last().raffle_id == raffle_id {
            tickets.last().amount as int
        } else {
            0
        })
    }
}

/// The tickets of the raffle `raffle_id` among `tickets`, in their order.
pub open spec fn tickets_of(tickets: Seq<Ticket>, raffle_id: u128) -> Seq<Ticket>
    decreases tickets.len(),
{
    if tickets.len() == 0 {
        Seq::empty()
    } else if tickets.last().raffle_id == raffle_id {
        tickets_of(tickets.drop_last(), raffle_id).push(tickets.last())
    } else {
        tickets_of(tickets.drop_last(), raffle_id)
    }
}

/// What the store holds: its raffles and its tickets, in the order in which
/// they came.
pub struct StoreState {
    pub raffles: Seq<Raffle>,
    pub tickets: Seq<Ticket>,
}

impl StoreState {
    /// Whether a raffle with this identifier is stored.
    pub open spec fn has_raffle(self, id: u128) -> bool {
        exists|i: int| 0 <= i < self.raffles.len() && (#[trigger] self.raffles[i]).id == id
    }

    /// Where the raffle with this identifier is stored.
    pub open spec fn raffle_index(self, id: u128) -> int {
        choose|i: int| 0 <= i < self.raffles.len() && (#[trigger] self.raffles[i]).id == id
    }

    /// The stored raffle with this identifier.
    pub open spec fn raffle(self, id: u128) -> Raffle {
        self.raffles[self.raffle_index(id)]
    }

    /// The stored raffle with this identifier, if there is one.
    pub open spec fn found_raffle(self, id: u128) -> Option<Raffle> {
        if self.has_raffle(id) {
            Some(self.raffle(id))
        } else {
            None
        }
    }

    /// Whether a stored ticket carries this payment reference.
    pub open spec fn reference_used(self, reference: Seq<char>) -> bool {
        exists|i: int|
            0 <= i < self.tickets.len() && (#[trigger] self.tickets[i]).spl_tx_signature@
                == reference
    }

    /// Whether a ticket with this identifier is stored.
    pub open spec fn has_ticket(self, id: u128) -> bool {
        exists|i: int| 0 <= i < self.tickets.len() && (#[trigger] self.tickets[i]).id == id
    }

    /// The tickets granted of a raffle, added up over the stored tickets.
    pub open spec fn sold(self, raffle_id: u128) -> int {
        sold_total(self.tickets, raffle_id)
    }

    /// What holds of every store: identifiers and payment references occur
    /// once; every ticket grants something, of a raffle that is stored; and
    /// every raffle has a positive price and counts as sold exactly what its
    /// tickets grant, which is never more than its capacity.
    pub open spec fn wf(self) -> bool {
        &&& forall|i: int, j: int|
            0 <= i < j < self.raffles.len() ==> (#[trigger] self.raffles[i]).id != (
            #[trigger] self.raffles[j]).id
        &&& forall|i: int, j: int|
            0 <= i < j < self.tickets.len() ==> (#[trigger] self.tickets[i]).id != (
            #[trigger] self.tickets[j]).id
        &&& forall|i: int, j: int|
            0 <= i < j < self.tickets.len() ==> (#[trigger] self.tickets[i]).spl_tx_signature@ != (
            #[trigger] self.tickets[j]).spl_tx_signature@
        &&& forall|i: int|
            0 <= i < self.tickets.len() ==> (#[trigger] self.tickets[i]).amount > 0
                && self.has_raffle(self.tickets[i].raffle_id)
        &&& forall|i: int|
            0 <= i < self.raffles.len() ==> {
                &&& (#[trigger] self.raffles[i]).ticket_price.units > 0
                &&& self.raffles[i].tickets_sold == self.sold(self.raffles[i].id)
                &&& self.raffles[i].tickets_sold <= self.raffles[i].ticket_amount
            }
    }

    /// How a store answers an attempt to grant, said over what a reader
    /// finds in it: whether the payment reference of the ticket has bought a
    /// ticket before, whether the identifier of the ticket is taken, the
    /// raffle that the ticket names, if it is stored, how many tickets are to
    /// be granted, and how many the caller saw sold.
    pub open spec fn verdict_of_reads(
        reference_used: bool,
        id_used: bool,
        stored: Option<Raffle>,
        amount: u16,
        expected_sold: u16,
    ) -> Result<(), StoreError> {
        if reference_used {
            Err(StoreError::DuplicateKey)
        } else if stored is None {
            Err(StoreError::NotFound)
        } else if id_used {
            Err(StoreError::DuplicateId)
        } else if amount == 0 {
            Err(StoreError::EmptyTicket)
        } else if stored->0.tickets_sold != expected_sold {
            Err(StoreError::VersionConflict)
        } else if stored->0.tickets_sold + amount > stored->0.ticket_amount {
            Err(StoreError::CapacityExceeded)
        } else {
            Ok(())
        }
    }

    /// How the store answers an attempt to grant `ticket` by a caller who
    /// saw `expected_sold` tickets of the raffle sold.
    pub open spec fn insert_verdict(self, ticket: Ticket, expected_sold: u16) -> Result<
        (),
        StoreError,
    > {
        Self::verdict_of_reads(
            self.reference_used(ticket.spl_tx_signature@),
            self.has_ticket(ticket.id),
            self.found_raffle(ticket.raffle_id),
            ticket.amount,
            expected_sold,
        )
    }

    /// Why a grant that was conditioned on `expected_sold` tickets sold and
    /// on room for its tickets found no raffle to change, told from the
    /// raffle as it is read afterwards: the raffle is gone, or has sold on,
    /// or has not the room.
    pub open spec fn missed_grant(stored: Option<Raffle>, expected_sold: u16) -> StoreError {
        match stored {
            None => StoreError::NotFound,
            Some(raffle) => if raffle.tickets_sold != expected_sold {
                StoreError::VersionConflict
            } else {
                StoreError::CapacityExceeded
            },
        }
    }

    /// How a store answers an attempt to remove a raffle, said over the
    /// raffle as a reader finds it: whether there is a raffle to remove, or
    /// why it may not be removed.
    pub open spec fn removal_of(stored: Option<Raffle>) -> Result<bool, StoreError> {
        match stored {
            None => Ok(false),
            Some(raffle) => if raffle.tickets_sold > 0 {
                Err(StoreError::RaffleHasTickets)
            } else {
                Ok(true)
            },
        }
    }

    /// The ticket as it is stored at time `now`.
    pub open spec fn stamped(ticket: Ticket, now: i64) -> Ticket {
        Ticket { date_created: now, date_updated: now, ..ticket }
    }

    /// The raffle after `amount` more tickets were granted at time `now`.
    pub open spec fn charged(raffle: Raffle, amount: u16, close: bool, now: i64) -> Raffle {
        Raffle {
            tickets_sold: (raffle.tickets_sold + amount) as u16,
            status: if close {
                RaffleStatus::Closed
            } else {
                raffle.status
            },
            date_updated: now,
            ..raffle
        }
    }

    /// The store after `ticket` was granted: the ticket is added, and its
    /// raffle counts it as sold and closes if `close` says so.
    pub open spec fn granted(self, ticket: Ticket, close: bool, now: i64) -> StoreState {
        let at = self.raffle_index(ticket.raffle_id);
        StoreState {
            raffles: self.raffles.update(
                at,
                Self::charged(self.raffles[at], ticket.amount, close, now),
            ),
            tickets: self.tickets.push(Self::stamped(ticket, now)),
        }
    }

    /// The store after an attempt to grant `ticket`: changed as `granted`
    /// says where the attempt is accepted, and as before where it is not.
    pub open spec fn after_attempt(
        self,
        ticket: Ticket,
        expected_sold: u16,
        close: bool,
        now: i64,
    ) -> StoreState {
        if self.insert_verdict(ticket, expected_sold) is Ok {
            self.granted(ticket, close, now)
        } else {
            self
        }
    }

    /// How the store answers an attempt to add `raffle` under the
    /// identifier `id`.
    pub open spec fn raffle_verdict(self, raffle: Raffle, id: u128) -> Result<(), StoreError> {
        if raffle.ticket_price.units <= 0 {
            Err(StoreError::InvalidPrice)
        } else if self.has_raffle(id) {
            Err(StoreError::DuplicateId)
        } else {
            Ok(())
        }
    }

    /// The raffle as it is first stored: under `id`, created at `now`, with
    /// no ticket sold.
    pub open spec fn opened(raffle: Raffle, id: u128, now: i64) -> Raffle {
        Raffle {
            id,
            status: RaffleStatus::Created,
            date_created: now,
            date_updated: now,
            tickets_sold: 0,
            ..raffle
        }
    }

    /// The store after an attempt to add `raffle`.
    pub open spec fn after_raffle(self, raffle: Raffle, id: u128, now: i64) -> StoreState {
        if self.raffle_verdict(raffle, id) is Ok {
            StoreState { raffles: self.raffles.push(Self::opened(raffle, id, now)), ..self }
        } else {
            self
        }
    }

    /// Why `stored` may not be revised by `raffle`, if it may not: the
    /// capacity is fixed, the status never goes back, and the price has to be
    /// greater than zero.
    pub open spec fn refusal_of(stored: Raffle, raffle: Raffle) -> Option<StoreError> {
        if raffle.ticket_amount != stored.ticket_amount {
            Some(StoreError::CapacityFixed)
        } else if raffle.status.rank() < stored.status.rank() {
            Some(StoreError::StatusRegression)
        } else if raffle.ticket_price.units <= 0 {
            Some(StoreError::InvalidPrice)
        } else {
            None
        }
    }

    /// How the store answers an attempt to revise the raffle `raffle.id`:
    /// whether it found the raffle, or why it refused.
    pub open spec fn revision_verdict(self, raffle: Raffle) -> Result<bool, StoreError> {
        if !self.has_raffle(raffle.id) {
            Ok(false)
        } else {
            match Self::refusal_of(self.raffle(raffle.id), raffle) {
                Some(refusal) => Err(refusal),
                None => Ok(true),
            }
        }
    }

    /// The stored raffle revised by `raffle` at `now`: what describes the
    /// raffle is taken over; identifier, capacity, creation time and the
    /// count of tickets sold stay.
    pub open spec fn revised(stored: Raffle, raffle: Raffle, now: i64) -> Raffle {
        Raffle {
            title: raffle.title,
            description: raffle.description,
            status: raffle.status,
            ticket_price: raffle.ticket_price,
            ticket_token_name: raffle.ticket_token_name,
            rule: raffle.rule,
            date_updated: now,
            ..stored
        }
    }

    /// The store after an attempt to revise a raffle.
    pub open spec fn after_revision(self, raffle: Raffle, now: i64) -> StoreState {
        if self.revision_verdict(raffle) == Ok::<bool, StoreError>(true) {
            let at = self.raffle_index(raffle.id);
            StoreState {
                raffles: self.raffles.update(at, Self::revised(self.raffles[at], raffle, now)),
                ..self
            }
        } else {
            self
        }
    }

    /// How the store answers an attempt to remove the raffle `id`: whether
    /// it found the raffle, or why it refused.
    pub open spec fn removal_verdict(self, id: u128) -> Result<bool, StoreError> {
        Self::removal_of(self.found_raffle(id))
    }

    /// The store after an attempt to remove the raffle `id`.
    pub open spec fn after_removal(self, id: u128) -> StoreState {
        if self.removal_verdict(id) == Ok::<bool, StoreError>(true) {
            StoreState { raffles: self.raffles.remove(self.raffle_index(id)), ..self }
        } else {
            self
        }
    }

    /// Where the ticket with this identifier is stored.
    pub open spec fn ticket_index(self, id: u128) -> int {
        choose|i: int| 0 <= i < self.tickets.len() && (#[trigger] self.tickets[i]).id == id
    }

    /// Where the ticket with this payment reference is stored.
    pub open spec fn reference_index(self, reference: Seq<char>) -> int {
        choose|i: int|
            0 <= i < self.tickets.len() && (#[trigger] self.tickets[i]).spl_tx_signature@
                == reference
    }

    /// The store after the ticket `id` was taken out, where it holds one:
    /// the ticket is gone and its raffle counts it as sold no longer.
    pub open spec fn after_refund(self, id: u128) -> StoreState {
        if self.has_ticket(id) {
            let at = self.ticket_index(id);
            let of = self.raffle_index(self.tickets[at].raffle_id);
            StoreState {
                raffles: self.raffles.update(
                    of,
                    Raffle {
                        tickets_sold: (self.raffles[of].tickets_sold - self.tickets[at].amount) as u16,
                        ..self.raffles[of]
                    },
                ),
                tickets: self.tickets.remove(at),
            }
        } else {
            self
        }
    }

    /// The store after the ticket `ticket.id` was given the user name of
    /// `ticket`, where it holds one.
    pub open spec fn after_rename(self, ticket: Ticket) -> StoreState {
        if self.has_ticket(ticket.id) {
            let at = self.ticket_index(ticket.id);
            StoreState {
                tickets: self.tickets.update(
                    at,
                    Ticket { username: ticket.username, ..self.tickets[at] },
                ),
                ..self
            }
        } else {
            self
        }
    }

    /// How many tickets the raffle `id` has sold as the store counts them:
    /// none where there is no such raffle.
    pub open spec fn counted(self, id: u128) -> u16 {
        if self.has_raffle(id) {
            self.raffle(id).tickets_sold
        } else {
            0
        }
    }

    /// Whether `amount` more tickets use the raffle `id` up.
    pub open spec fn uses_up(self, id: u128, amount: u16) -> bool {
        self.has_raffle(id) && self.raffle(id).tickets_sold + amount == self.raffle(
            id,
        ).ticket_amount
    }
}

/// One more ticket adds what it grants to the total of its raffle and
/// nothing to any other.
pub proof fn lemma_sold_total_push(tickets: Seq<Ticket>, ticket: Ticket, raffle_id: u128)
    ensures
        sold_total(tickets.push(ticket), raffle_id) == sold_total(tickets, raffle_id) + (if ticket
            .raffle_id == raffle_id {
            ticket.amount as int
        } else {
            0
        }),
{
    assert(tickets.push(ticket).drop_last() =~= tickets);
}

/// The total of a raffle is never negative, and it is zero where no ticket
/// is of that raffle.
pub proof fn lemma_sold_total_bounds(tickets: Seq<Ticket>, raffle_id: u128)
    ensures
        sold_total(tickets, raffle_id) >= 0,
        (forall|i: int| 0 <= i < tickets.len() ==> (#[trigger] tickets[i]).raffle_id != raffle_id)
            ==> sold_total(tickets, raffle_id) == 0,
    decreases tickets.len(),
{
    if tickets.len() > 0 {
        lemma_sold_total_bounds(tickets.drop_last(), raffle_id);
        assert(forall|i: int|
            0 <= i < tickets.drop_last().len() ==> tickets.drop_last()[i] == tickets[i]);
    }
}

/// A ticket of a raffle that grants something makes the raffle's total
/// positive.
pub proof fn lemma_sold_total_counts(tickets: Seq<Ticket>, raffle_id: u128, at: int)
    requires
        0 <= at < tickets.len(),
        tickets[at].raffle_id == raffle_id,
    ensures
        sold_total(tickets, raffle_id) >= tickets[at].amount,
    decreases tickets.len(),
{
    lemma_sold_total_bounds(tickets.drop_last(), raffle_id);
    if at < tickets.len() - 1 {
        lemma_sold_total_counts(tickets.drop_last(), raffle_id, at);
    }
}

/// Taking a ticket out takes what it grants from the total of its raffle
/// and nothing from any other.
pub proof fn lemma_sold_total_remove(tickets: Seq<Ticket>, at: int, raffle_id: u128)
    requires
        0 <= at < tickets.len(),
    ensures
        sold_total(tickets.remove(at), raffle_id) == sold_total(tickets, raffle_id) - (if tickets[at]
            .raffle_id == raffle_id {
            tickets[at].amount as int
        } else {
            0
        }),
    decreases tickets.len(),
{
    if at == tickets.len() - 1 {
        assert(tickets.remove(at) =~= tickets.drop_last());
    } else {
        lemma_sold_total_remove(tickets.drop_last(), at, raffle_id);
        assert(tickets.remove(at).drop_last() =~= tickets.drop_last().remove(at));
        assert(tickets.remove(at).last() == tickets.last());
    }
}

/// In a store where identifiers occur once, the place of a raffle is
/// the place where it is found.
pub proof fn lemma_one_index(state: StoreState, id: u128, at: int)
    requires
        state.wf(),
        0 <= at < state.raffles.len(),
        state.raffles[at].id == id,
    ensures
        state.has_raffle(id),
        state.raffle_index(id) == at,
        state.raffle(id) == state.raffles[at],
{
    let chosen = state.raffle_index(id);
    assert(0 <= chosen < state.raffles.len() && state.raffles[chosen].id == id);
    if chosen < at {
        assert(state.raffles[chosen].id != state.raffles[at].id);
    }
    if at < chosen {
        assert(state.raffles[at].id != state.raffles[chosen].id);
    }
}

/// An accepted attempt leaves a store of which `wf` holds again: no
/// raffle has then sold more than its capacity.
pub proof fn lemma_granted_keeps_wf(
    state: StoreState,
    ticket: Ticket,
    expected_sold: u16,
    close: bool,
    now: i64,
)
    requires
        state.wf(),
        state.insert_verdict(ticket, expected_sold) is Ok,
    ensures
        state.granted(ticket, close, now).wf(),
{
    let after = state.granted(ticket, close, now);
    let at = state.raffle_index(ticket.raffle_id);
    let stored = StoreState::stamped(ticket, now);
    assert(0 <= at < state.raffles.len() && state.raffles[at].id == ticket.raffle_id);
    assert(after.raffles.len() == state.raffles.len());
    assert forall|i: int| 0 <= i < after.raffles.len() implies (#[trigger] after.raffles[i]).id
        == state.raffles[i].id by {}
    assert forall|i: int| 0 <= i < after.tickets.len() implies (#[trigger] after.tickets[i]).amount
        > 0 && after.has_raffle(after.tickets[i].raffle_id) by {
        let wanted = after.tickets[i].raffle_id;
        if i < state.tickets.len() {
            assert(after.tickets[i] == state.tickets[i]);
            assert(state.has_raffle(wanted));
            let k = choose|k: int|
                0 <= k < state.raffles.len() && (#[trigger] state.raffles[k]).id == wanted;
            assert(after.raffles[k].id == wanted);
        } else {
            assert(after.raffles[at].id == wanted);
        }
    }
    assert forall|i: int| 0 <= i < after.raffles.len() implies {
        &&& (#[trigger] after.raffles[i]).ticket_price.units > 0
        &&& after.raffles[i].tickets_sold == after.sold(after.raffles[i].id)
        &&& after.raffles[i].tickets_sold <= after.raffles[i].ticket_amount
    } by {
        lemma_sold_total_push(state.tickets, stored, state.raffles[i].id);
        if i != at {
            if i < at {
                assert(state.raffles[i].id != state.raffles[at].id);
            } else {
                assert(state.raffles[at].id != state.raffles[i].id);
            }
            assert(after.raffles[i] == state.raffles[i]);
        }
    }
    assert forall|i: int, j: int| 0 <= i < j < after.tickets.len() implies (
    #[trigger] after.tickets[i]).spl_tx_signature@ != (
    #[trigger] after.tickets[j]).spl_tx_signature@ by {
        if j == state.tickets.len() {
            assert(state.tickets[i].spl_tx_signature@ != ticket.spl_tx_signature@);
        }
    }
    assert forall|i: int, j: int| 0 <= i < j < after.tickets.len() implies (
    #[trigger] after.tickets[i]).id != (#[trigger] after.tickets[j]).id by {
        if j == state.tickets.len() {
            assert(state.tickets[i].id != ticket.id);
        }
    }
}

/// In a store where identifiers occur once, the place of a ticket is
/// the place where it is found.
pub proof fn lemma_one_ticket_index(state: StoreState, id: u128, at: int)
    requires
        state.wf(),
        0 <= at < state.tickets.len(),
        state.tickets[at].id == id,
    ensures
        state.has_ticket(id),
        state.ticket_index(id) == at,
{
    let chosen = state.ticket_index(id);
    assert(0 <= chosen < state.tickets.len() && state.tickets[chosen].id == id);
    if chosen < at {
        assert(state.tickets[chosen].id != state.tickets[at].id);
    }
    if at < chosen {
        assert(state.tickets[at].id != state.tickets[chosen].id);
    }
}

/// In a store where payment references occur once, the place of a
/// reference is the place where it is found.
pub proof fn lemma_one_reference_index(state: StoreState, reference: Seq<char>, at: int)
    requires
        state.wf(),
        0 <= at < state.tickets.len(),
        state.tickets[at].spl_tx_signature@ == reference,
    ensures
        state.reference_used(reference),
        state.reference_index(reference) == at,
{
    let chosen = state.reference_index(reference);
    assert(0 <= chosen < state.tickets.len() && state.tickets[chosen].spl_tx_signature@
        == reference);
    if chosen < at {
        assert(state.tickets[chosen].spl_tx_signature@ != state.tickets[at].spl_tx_signature@);
    }
    if at < chosen {
        assert(state.tickets[at].spl_tx_signature@ != state.tickets[chosen].spl_tx_signature@);
    }
}

/// A store keeps `wf` through a change that leaves its tickets alone
/// and, of every raffle, the identifier, the capacity and the count of
/// tickets sold, and that leaves every price positive.
pub proof fn lemma_same_identifiers_keep_wf(before: StoreState, after: StoreState)
    requires
        before.wf(),
        after.tickets == before.tickets,
        after.raffles.len() == before.raffles.len(),
        forall|i: int|
            0 <= i < before.raffles.len() ==> {
                &&& (#[trigger] after.raffles[i]).id == before.raffles[i].id
                &&& after.raffles[i].tickets_sold == before.raffles[i].tickets_sold
                &&& after.raffles[i].ticket_amount == before.raffles[i].ticket_amount
                &&& after.raffles[i].ticket_price.units > 0
            },
    ensures
        after.wf(),
{
    assert forall|i: int| 0 <= i < after.tickets.len() implies (#[trigger] after.tickets[i]).amount
        > 0 && after.has_raffle(after.tickets[i].raffle_id) by {
        let wanted = before.tickets[i].raffle_id;
        assert(before.has_raffle(wanted));
        let k = choose|k: int|
            0 <= k < before.raffles.len() && (#[trigger] before.raffles[k]).id == wanted;
        assert(after.raffles[k].id == wanted);
    }
    assert forall|i: int, j: int| 0 <= i < j < after.raffles.len() implies (
    #[trigger] after.raffles[i]).id != (#[trigger] after.raffles[j]).id by {
        assert(before.raffles[i].id != before.raffles[j].id);
    }
    assert forall|i: int| 0 <= i < after.raffles.len() implies {
        &&& (#[trigger] after.raffles[i]).ticket_price.units > 0
        &&& after.raffles[i].tickets_sold == after.sold(after.raffles[i].id)
        &&& after.raffles[i].tickets_sold <= after.raffles[i].ticket_amount
    } by {
        assert(before.raffles[i].tickets_sold == before.sold(before.raffles[i].id));
    }
}

/// A store keeps `wf` through a change that leaves its raffles alone
/// and, of every ticket, the identifier, the raffle, the payment
/// reference and the number of tickets granted.
pub proof fn lemma_same_grants_keep_wf(before: StoreState, after: StoreState)
    requires
        before.wf(),
        after.raffles == before.raffles,
        after.tickets.len() == before.tickets.len(),
        forall|i: int|
            0 <= i < before.tickets.len() ==> {
                &&& (#[trigger] after.tickets[i]).id == before.tickets[i].id
                &&& after.tickets[i].raffle_id == before.tickets[i].raffle_id
                &&& after.tickets[i].amount == before.tickets[i].amount
                &&& after.tickets[i].spl_tx_signature == before.tickets[i].spl_tx_signature
            },
    ensures
        after.wf(),
{
    assert forall|id: u128| sold_total(after.tickets, id) == sold_total(before.tickets, id) by {
        lemma_same_grants_same_total(before.tickets, after.tickets, id);
    }
    assert forall|i: int| 0 <= i < after.tickets.len() implies (#[trigger] after.tickets[i]).amount
        > 0 && after.has_raffle(after.tickets[i].raffle_id) by {
        assert(before.has_raffle(before.tickets[i].raffle_id));
    }
    assert forall|i: int, j: int| 0 <= i < j < after.tickets.len() implies (
    #[trigger] after.tickets[i]).id != (#[trigger] after.tickets[j]).id by {
        assert(before.tickets[i].id != before.tickets[j].id);
    }
    assert forall|i: int, j: int| 0 <= i < j < after.tickets.len() implies (
    #[trigger] after.tickets[i]).spl_tx_signature@ != (
    #[trigger] after.tickets[j]).spl_tx_signature@ by {
        assert(before.tickets[i].spl_tx_signature@ != before.tickets[j].spl_tx_signature@);
    }
}

/// Tickets that grant the same, of the same raffles, add up to the same.
pub proof fn lemma_same_grants_same_total(before: Seq<Ticket>, after: Seq<Ticket>, id: u128)
    requires
        after.len() == before.len(),
        forall|i: int|
            0 <= i < before.len() ==> (#[trigger] after[i]).raffle_id == before[i].raffle_id
                && after[i].amount == before[i].amount,
    ensures
        sold_total(after, id) == sold_total(before, id),
    decreases before.len(),
{
    if before.len() > 0 {
        assert forall|i: int| 0 <= i < before.drop_last().len() implies (
        #[trigger] after.drop_last()[i]).raffle_id == before.drop_last()[i].raffle_id
            && after.drop_last()[i].amount == before.drop_last()[i].amount by {
            assert(after.drop_last()[i] == after[i]);
            assert(before.drop_last()[i] == before[i]);
        }
        lemma_same_grants_same_total(before.drop_last(), after.drop_last(), id);
        assert(after.last() == after[after.len() - 1]);
        assert(before.last() == before[before.len() - 1]);
    }
}

} // verus!
