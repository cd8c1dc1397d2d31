//! One purchase request from payment lookup to granted tickets.
//!
//! A request passes through the states fetching, validating and allocating
//! and ends committed or rejected. What is done outside (the lookup of the
//! payment, the reads and the write in the store) happens between two calls
//! of `advance`, which decides what is to be done next.

use crate::amount::Amount;
use crate::db::DatabaseRaffle;
use crate::model::{FetchError, Raffle, SolanaTX, Ticket};
use crate::store::{StoreError, StoreState};
use crate::validator::{
    allocation_of, calculate_ticket_amount, AllocationDecision, CheckName, ValidationPipeline,
};
use vstd::prelude::*;

verus! {

/// Why a request that passed validation, or never reached it, failed.
#[derive(Clone, Copy, Debug, PartialEq, Eq, Structural)]
pub enum FailureCause {
    /// The payment could not be looked up.
    ExternalLookupFailure { lookup: FetchError },
    /// Twice in a row the raffle had sold on between reading and granting.
    CapacityConflict,
    /// The payment buys no ticket, or no ticket is left.
    ZeroAllocation,
    /// The store refused the grant for another reason than capacity.
    PersistenceFailure { error: StoreError },
    /// An answer arrived that the request was not waiting for.
    OutOfSequence,
}

/// Why a request was rejected.
#[derive(Clone, Copy, Debug, PartialEq, Eq, Structural)]
pub enum Rejection {
    /// A check of the validation pipeline failed.
    ValidationFailure { reason: CheckName },
    /// The request failed outside validation.
    SystemFailure { cause: FailureCause },
}

impl Rejection {
    /// What the caller is told.
    pub open spec fn message_text(self) -> Seq<char> {
        match self {
            Rejection::ValidationFailure { reason } => reason.message_text(),
            Rejection::SystemFailure { cause } => match cause {
                FailureCause::ExternalLookupFailure { lookup } => "API-Error"@,
                FailureCause::CapacityConflict => "Sold out"@,
                FailureCause::ZeroAllocation => "Ticket amount would be 0"@,
                FailureCause::PersistenceFailure { error } => "Ticket could not be stored"@,
                FailureCause::OutOfSequence => "Request out of sequence"@,
            },
        }
    }

    /// What the caller is told: for a failed check the message of the
    /// check, else a line that names the cause.
    pub fn message(self) -> (text: String)
        ensures
            text@ == self.message_text(),
    {
        match self {
            Rejection::ValidationFailure { reason } => reason.message(),
            Rejection::SystemFailure { cause } => match cause {
                FailureCause::ExternalLookupFailure { lookup } => String::from_str("API-Error"),
                FailureCause::CapacityConflict => String::from_str("Sold out"),
                FailureCause::ZeroAllocation => String::from_str("Ticket amount would be 0"),
                FailureCause::PersistenceFailure { error } => String::from_str(
                    "Ticket could not be stored",
                ),
                FailureCause::OutOfSequence => String::from_str("Request out of sequence"),
            },
        }
    }
}

/// What a request asks the store to grant, and on which condition.
#[derive(Clone, Copy, Debug, PartialEq, Eq, Structural)]
pub struct Reservation {
    /// How many tickets to grant.
    pub tickets: u16,
    /// How many tickets the raffle had sold when the number was computed.
    pub expected_sold: u16,
    /// Whether the grant uses the raffle up.
    pub close: bool,
    /// The amount that was paid.
    pub payment: Amount,
}

/// Where a request stands.
#[derive(Debug, PartialEq, Eq)]
pub enum PurchaseState {
    /// The payment is being looked up.
    Fetching,
    /// The payment is known; the raffle and the use of the payment
    /// reference are being read.
    Validating { tx: SolanaTX },
    /// A grant is with the store. `retried` tells a second attempt from the
    /// first.
    Allocating { reservation: Reservation, retried: bool },
    /// The first grant met a raffle that had sold on; the raffle is being
    /// read again.
    Reloading { payment: Amount },
    /// The tickets are granted.
    Committed { tickets: u16 },
    /// The request is rejected.
    Rejected { rejection: Rejection },
}

/// What happened outside since the last step.
#[derive(Debug, PartialEq, Eq)]
pub enum PurchaseEvent {
    /// The lookup of the payment ended.
    Fetched { lookup: Result<SolanaTX, FetchError> },
    /// The raffle was read, and whether the payment reference has bought a
    /// ticket before.
    Loaded { raffle: Option<Raffle>, signature_used: bool },
    /// The store answered a grant.
    Stored { answer: Result<(), StoreError> },
}

/// What is to be done outside next.
#[derive(Clone, Copy, Debug, PartialEq, Eq)]
pub enum PurchaseAction {
    /// Read the raffle and look the payment reference up in the store.
    Load,
    /// Ask the store to grant the reservation.
    Commit { reservation: Reservation },
    /// Nothing: the request has ended with this result.
    Finish { outcome: Result<u16, Rejection> },
}

/// What to reserve for `payment` of a raffle as it was read: nothing
/// without a raffle or with a price that is not positive, nothing where the
/// payment buys no ticket, else what the allocation calculator grants, on
/// the condition that the raffle has sold no more since.
///
/// `retried` says that the raffle was read again after a grant had met a
/// conflict: a raffle that has nothing left by then was used up by others,
/// which is a conflict of capacity and no allocation of zero.
pub open spec fn plan(payment: Amount, raffle: Option<Raffle>, retried: bool) -> Result<
    Reservation,
    Rejection,
> {
    match raffle {
        None => Err(
            Rejection::SystemFailure {
                cause: FailureCause::PersistenceFailure { error: StoreError::NotFound },
            },
        ),
        Some(found) => if found.ticket_price.units <= 0 {
            Err(
                Rejection::SystemFailure {
                    cause: FailureCause::PersistenceFailure { error: StoreError::InvalidPrice },
                },
            )
        } else {
            let granted = allocation_of(
                payment,
                found.ticket_price,
                found.ticket_amount,
                found.tickets_sold as u64,
            );
            if granted.tickets == 0 {
                if retried && granted.decision == AllocationDecision::SoldOut {
                    Err(Rejection::SystemFailure { cause: FailureCause::CapacityConflict })
                } else {
                    Err(Rejection::SystemFailure { cause: FailureCause::ZeroAllocation })
                }
            } else {
                Ok(
                    Reservation {
                        tickets: granted.tickets,
                        expected_sold: found.tickets_sold,
                        close: granted.should_close,
                        payment,
                    },
                )
            }
        },
    }
}

/// The state and the action that follow a rejection.
pub open spec fn reject(rejection: Rejection) -> (PurchaseState, PurchaseAction) {
    (PurchaseState::Rejected { rejection }, PurchaseAction::Finish { outcome: Err(rejection) })
}

/// The state and the action that follow planning a grant.
pub open spec fn reserve(planned: Result<Reservation, Rejection>, retried: bool) -> (
    PurchaseState,
    PurchaseAction,
) {
    match planned {
        Ok(reservation) => (
            PurchaseState::Allocating { reservation, retried },
            PurchaseAction::Commit { reservation },
        ),
        Err(rejection) => reject(rejection),
    }
}

/// The step of a request: from where it stands and what happened to where
/// it stands next and what is to be done.
///
/// A failed lookup, a failed check, a missing raffle and an allocation of
/// zero reject the request. A grant that met a raffle which had sold on is
/// planned anew from the raffle as it is then, once; a raffle with nothing
/// left by then, and a second such answer of the store, reject the request
/// for want of capacity. Any other refusal of the store rejects it. A
/// request that has ended stays as it is, and an answer that the request was
/// not waiting for rejects it.
pub open spec fn next(pipeline: ValidationPipeline, state: PurchaseState, event: PurchaseEvent) -> (
    PurchaseState,
    PurchaseAction,
) {
    match (state, event) {
        (PurchaseState::Committed { tickets }, _) => (
            state,
            PurchaseAction::Finish { outcome: Ok(tickets) },
        ),
        (PurchaseState::Rejected { rejection }, _) => (
            state,
            PurchaseAction::Finish { outcome: Err(rejection) },
        ),
        (PurchaseState::Fetching, PurchaseEvent::Fetched { lookup }) => match lookup {
            Ok(tx) => (PurchaseState::Validating { tx }, PurchaseAction::Load),
            Err(lookup) => reject(
                Rejection::SystemFailure { cause: FailureCause::ExternalLookupFailure { lookup } },
            ),
        },
        (PurchaseState::Validating { tx }, PurchaseEvent::Loaded { raffle, signature_used }) => {
            match pipeline.verdict_of(tx, raffle, signature_used) {
                Err(reason) => reject(Rejection::ValidationFailure { reason }),
                Ok(_) => reserve(plan(tx.amount, raffle, false), false),
            }
        },
        (PurchaseState::Reloading { payment }, PurchaseEvent::Loaded { raffle, signature_used }) => {
            reserve(plan(payment, raffle, true), true)
        },
        (PurchaseState::Allocating { reservation, retried }, PurchaseEvent::Stored { answer }) => {
            match answer {
                Ok(_) => (
                    PurchaseState::Committed { tickets: reservation.tickets },
                    PurchaseAction::Finish { outcome: Ok(reservation.tickets) },
                ),
                Err(error) => if error == StoreError::VersionConflict {
                    if retried {
                        reject(Rejection::SystemFailure { cause: FailureCause::CapacityConflict })
                    } else {
                        (
                            PurchaseState::Reloading { payment: reservation.payment },
                            PurchaseAction::Load,
                        )
                    }
                } else {
                    reject(
                        Rejection::SystemFailure {
                            cause: FailureCause::PersistenceFailure { error },
                        },
                    )
                },
            }
        },
        _ => reject(Rejection::SystemFailure { cause: FailureCause::OutOfSequence }),
    }
}

/// Plans the grant for `payment` of a raffle as it was read, for the first
/// time or, with `retried`, after a conflict: see `plan`.
pub fn plan_allocation(payment: Amount, raffle: &Option<Raffle>, retried: bool) -> (planned: Result<
    Reservation,
    Rejection,
>)
    ensures
        planned == plan(payment, *raffle, retried),
{
    match raffle {
        None => Err(
            Rejection::SystemFailure {
                cause: FailureCause::PersistenceFailure { error: StoreError::NotFound },
            },
        ),
        Some(found) => {
            if found.ticket_price.units <= 0 {
                return Err(
                    Rejection::SystemFailure {
                        cause: FailureCause::PersistenceFailure { error: StoreError::InvalidPrice },
                    },
                );
            }
            let granted = calculate_ticket_amount(
                &payment,
                &found.ticket_price,
                found.ticket_amount,
                found.tickets_sold as u64,
            );
            if granted.tickets == 0 {
                let used_up = match granted.decision {
                    AllocationDecision::SoldOut => true,
                    _ => false,
                };
                if retried && used_up {
                    Err(Rejection::SystemFailure { cause: FailureCause::CapacityConflict })
                } else {
                    Err(Rejection::SystemFailure { cause: FailureCause::ZeroAllocation })
                }
            } else {
                Ok(
                    Reservation {
                        tickets: granted.tickets,
                        expected_sold: found.tickets_sold,
                        close: granted.should_close,
                        payment,
                    },
                )
            }
        },
    }
}

/// The state and the action that follow a rejection.
fn rejected(rejection: Rejection) -> (step: (PurchaseState, PurchaseAction))
    ensures
        step == reject(rejection),
{
    (PurchaseState::Rejected { rejection }, PurchaseAction::Finish { outcome: Err(rejection) })
}

/// The state and the action that follow planning a grant.
fn reserved(planned: Result<Reservation, Rejection>, retried: bool) -> (step: (
    PurchaseState,
    PurchaseAction,
))
    ensures
        step == reserve(planned, retried),
{
    match planned {
        Ok(reservation) => (
            PurchaseState::Allocating { reservation, retried },
            PurchaseAction::Commit { reservation },
        ),
        Err(rejection) => rejected(rejection),
    }
}

/// Takes a request one step on: see `next`.
pub fn advance(pipeline: &ValidationPipeline, state: PurchaseState, event: PurchaseEvent) -> (step: (
    PurchaseState,
    PurchaseAction,
))
    ensures
        step == next(*pipeline, state, event),
{
    match state {
        PurchaseState::Committed { tickets } => (
            PurchaseState::Committed { tickets },
            PurchaseAction::Finish { outcome: Ok(tickets) },
        ),
        PurchaseState::Rejected { rejection } => rejected(rejection),
        PurchaseState::Fetching => match event {
            PurchaseEvent::Fetched { lookup } => match lookup {
                Ok(tx) => (PurchaseState::Validating { tx }, PurchaseAction::Load),
                Err(lookup) => rejected(
                    Rejection::SystemFailure {
                        cause: FailureCause::ExternalLookupFailure { lookup },
                    },
                ),
            },
            _ => rejected(Rejection::SystemFailure { cause: FailureCause::OutOfSequence }),
        },
        PurchaseState::Validating { tx } => match event {
            PurchaseEvent::Loaded { raffle, signature_used } => {
                match pipeline.validate(&tx, &raffle, signature_used) {
                    Err(reason) => rejected(Rejection::ValidationFailure { reason }),
                    Ok(_) => reserved(plan_allocation(tx.amount, &raffle, false), false),
                }
            },
            _ => rejected(Rejection::SystemFailure { cause: FailureCause::OutOfSequence }),
        },
        PurchaseState::Reloading { payment } => match event {
            PurchaseEvent::Loaded { raffle, signature_used } => reserved(
                plan_allocation(payment, &raffle, true),
                true,
            ),
            _ => rejected(Rejection::SystemFailure { cause: FailureCause::OutOfSequence }),
        },
        PurchaseState::Allocating { reservation, retried } => match event {
            PurchaseEvent::Stored { answer } => match answer {
                Ok(_) => (
                    PurchaseState::Committed { tickets: reservation.tickets },
                    PurchaseAction::Finish { outcome: Ok(reservation.tickets) },
                ),
                Err(error) => match error {
                    StoreError::VersionConflict => if retried {
                        rejected(
                            Rejection::SystemFailure { cause: FailureCause::CapacityConflict },
                        )
                    } else {
                        (
                            PurchaseState::Reloading { payment: reservation.payment },
                            PurchaseAction::Load,
                        )
                    },
                    _ => rejected(
                        Rejection::SystemFailure {
                            cause: FailureCause::PersistenceFailure { error },
                        },
                    ),
                },
            },
            _ => rejected(Rejection::SystemFailure { cause: FailureCause::OutOfSequence }),
        },
    }
}


/// The ticket that is stored for `request` when `reservation` is granted:
/// the request with the tickets granted and the amount paid.
pub open spec fn ticket_for(request: Ticket, reservation: Reservation) -> Ticket {
    Ticket { amount: reservation.tickets, amount_send: reservation.payment, ..request }
}

/// What a store in `state` lets `request` reserve, given how the lookup of
/// its payment ended: the lookup has to succeed, the checks have to pass
/// against the raffle and the tickets as stored, and the payment has to buy
/// at least one ticket.
pub open spec fn assessed(
    state: StoreState,
    pipeline: ValidationPipeline,
    request: Ticket,
    fetched: Result<SolanaTX, FetchError>,
) -> Result<Reservation, Rejection> {
    match fetched {
        Err(lookup) => Err(
            Rejection::SystemFailure { cause: FailureCause::ExternalLookupFailure { lookup } },
        ),
        Ok(tx) => {
            let raffle = state.found_raffle(request.raffle_id);
            let used = state.reference_used(request.spl_tx_signature@);
            match pipeline.verdict_of(tx, raffle, used) {
                Err(reason) => Err(Rejection::ValidationFailure { reason }),
                Ok(_) => plan(tx.amount, raffle, false),
            }
        },
    }
}

/// How a request ends against a store in `state` that no one else changes
/// meanwhile: with the tickets reserved, where the store accepts them.
pub open spec fn settled(
    state: StoreState,
    pipeline: ValidationPipeline,
    request: Ticket,
    fetched: Result<SolanaTX, FetchError>,
) -> Result<u16, Rejection> {
    match assessed(state, pipeline, request, fetched) {
        Err(rejection) => Err(rejection),
        Ok(reservation) => match state.insert_verdict(
            ticket_for(request, reservation),
            reservation.expected_sold,
        ) {
            Ok(_) => Ok(reservation.tickets),
            Err(error) => Err(
                Rejection::SystemFailure { cause: FailureCause::PersistenceFailure { error } },
            ),
        },
    }
}

/// The store after a request was served at `now`: as before where the
/// request is rejected, else with the ticket granted.
pub open spec fn after_purchase(
    state: StoreState,
    pipeline: ValidationPipeline,
    request: Ticket,
    fetched: Result<SolanaTX, FetchError>,
    now: i64,
) -> StoreState {
    match assessed(state, pipeline, request, fetched) {
        Err(_) => state,
        Ok(reservation) => state.after_attempt(
            ticket_for(request, reservation),
            reservation.expected_sold,
            reservation.close,
            now,
        ),
    }
}

impl Reservation {
    /// The ticket to store for `request` when the reservation is granted.
    pub fn ticket(&self, request: &Ticket) -> (ticket: Ticket)
        ensures
            ticket == ticket_for(*request, *self),
    {
        let mut ticket = request.clone();
        ticket.amount = self.tickets;
        ticket.amount_send = self.payment;
        ticket
    }
}

/// The raffle and the use of the payment reference as a request reads them.
fn load(db_interface: &DatabaseRaffle, request: &Ticket) -> (read: (Option<Raffle>, bool))
    requires
        db_interface@.wf(),
    ensures
        read.0 == db_interface@.found_raffle(request.raffle_id),
        read.1 == db_interface@.reference_used(request.spl_tx_signature@),
{
    let raffle = match db_interface.get_raffle_by_id(request.raffle_id) {
        Some(found) => Some(found.clone()),
        None => None,
    };
    let used = db_interface.get_spl_tx_in_ticket(&request.spl_tx_signature).is_some();
    (raffle, used)
}

/// Says what `ticket` would be granted, without granting it: the lookup of
/// the payment has to have succeeded, the checks have to pass against the
/// store, and the payment has to buy at least one ticket.
pub fn validate_ticket(
    db_interface: &DatabaseRaffle,
    pipeline: &ValidationPipeline,
    ticket: &Ticket,
    fetched: Result<SolanaTX, FetchError>,
) -> (tickets: Result<u16, Rejection>)
    requires
        db_interface@.wf(),
    ensures
        tickets == match assessed(db_interface@, *pipeline, *ticket, fetched) {
            Ok(reservation) => Ok::<u16, Rejection>(reservation.tickets),
            Err(rejection) => Err(rejection),
        },
{
    let (state, action) = advance(
        pipeline,
        PurchaseState::Fetching,
        PurchaseEvent::Fetched { lookup: fetched },
    );
    match action {
        PurchaseAction::Load => {},
        PurchaseAction::Finish { outcome } => {
            return outcome;
        },
        // after a lookup a request reads or ends
        PurchaseAction::Commit { reservation } => {
            return Ok(reservation.tickets);
        },
    }
    let (raffle, signature_used) = load(db_interface, ticket);
    let (_, action) = advance(pipeline, state, PurchaseEvent::Loaded { raffle, signature_used });
    match action {
        PurchaseAction::Commit { reservation } => Ok(reservation.tickets),
        PurchaseAction::Finish { outcome } => outcome,
        // after its first reading a request asks for a grant or ends
        PurchaseAction::Load => Err(
            Rejection::SystemFailure { cause: FailureCause::OutOfSequence },
        ),
    }
}

/// Serves one request against the store at `now`: looks at how the lookup
/// of the payment ended, runs the checks, computes the tickets and grants
/// them in one step. Returns the number of tickets granted, or why there are
/// none. A rejected request leaves the store as it was.
pub fn submit_purchase(
    db_interface: &mut DatabaseRaffle,
    pipeline: &ValidationPipeline,
    request: &Ticket,
    fetched: Result<SolanaTX, FetchError>,
    now: i64,
) -> (outcome: Result<u16, Rejection>)
    requires
        old(db_interface)@.wf(),
    ensures
        outcome == settled(old(db_interface)@, *pipeline, *request, fetched),
        final(db_interface)@ == after_purchase(old(db_interface)@, *pipeline, *request, fetched, now),
        final(db_interface)@.wf(),
{
    let ghost before = db_interface@;
    let (state, action) = advance(
        pipeline,
        PurchaseState::Fetching,
        PurchaseEvent::Fetched { lookup: fetched },
    );
    match action {
        PurchaseAction::Load => {},
        PurchaseAction::Finish { outcome } => {
            return outcome;
        },
        // after a lookup a request reads or ends
        PurchaseAction::Commit { reservation } => {
            return Ok(reservation.tickets);
        },
    }
    let (raffle, signature_used) = load(db_interface, request);
    let (state, action) = advance(pipeline, state, PurchaseEvent::Loaded { raffle, signature_used });
    match action {
        PurchaseAction::Commit { reservation } => {
            let ticket = reservation.ticket(request);
            let answer = db_interface.conditional_insert(
                ticket,
                reservation.expected_sold,
                reservation.close,
                now,
            );
            let (_, action) = advance(pipeline, state, PurchaseEvent::Stored { answer });
            match action {
                PurchaseAction::Finish { outcome } => outcome,
                // nobody else has changed the store since it was read: the
                // grant meets no conflict, and the request ends here
                _ => Err(Rejection::SystemFailure { cause: FailureCause::CapacityConflict }),
            }
        },
        PurchaseAction::Finish { outcome } => outcome,
        // after its first reading a request asks for a grant or ends
        PurchaseAction::Load => Err(
            Rejection::SystemFailure { cause: FailureCause::OutOfSequence },
        ),
    }
}

} // verus!
