//! What holds of the engine whatever requests arrive, in whatever order.

use crate::amount::{whole_units, Amount};
use crate::store::{
    lemma_granted_keeps_wf, lemma_one_index, lemma_same_identifiers_keep_wf, StoreError, StoreState,
};
use crate::model::{FetchError, Raffle, RaffleStatus, SolanaTX, Ticket};
use crate::purchase::{
    after_purchase, assessed, next, settled, ticket_for, PurchaseEvent, PurchaseState,
};
use crate::text::{is_substring, lemma_substring_of_itself};
use crate::validator::{allocation_of, AllocationDecision, CheckName, ValidationPipeline};
use vstd::prelude::*;

verus! {

/// One attempt to have a ticket granted, as it reaches the store. Requests
/// that are served side by side reach the store one attempt after another,
/// each with the count of tickets sold that its request happened to read.
pub struct Attempt {
    pub ticket: Ticket,
    pub expected_sold: u16,
    pub close: bool,
    pub now: i64,
}

/// The store after the attempts reached it in their order.
pub open spec fn after_attempts(state: StoreState, attempts: Seq<Attempt>) -> StoreState
    decreases attempts.len(),
{
    if attempts.len() == 0 {
        state
    } else {
        after_attempts(state, attempts.drop_last()).after_attempt(
            attempts.last().ticket,
            attempts.last().expected_sold,
            attempts.last().close,
            attempts.last().now,
        )
    }
}

/// An attempt leaves every raffle where it is, with its identifier and its
/// capacity, and closed if it was closed.
pub proof fn lemma_attempt_keeps_raffles(state: StoreState, attempt: Attempt)
    requires
        state.wf(),
    ensures
        ({
            let after = state.after_attempt(
                attempt.ticket,
                attempt.expected_sold,
                attempt.close,
                attempt.now,
            );
            &&& after.wf()
            &&& after.raffles.len() == state.raffles.len()
            &&& forall|i: int|
                0 <= i < state.raffles.len() ==> {
                    &&& (#[trigger] after.raffles[i]).id == state.raffles[i].id
                    &&& after.raffles[i].ticket_amount == state.raffles[i].ticket_amount
                    &&& state.raffles[i].status == RaffleStatus::Closed ==> after.raffles[i].status
                        == RaffleStatus::Closed
                }
            &&& forall|i: int|
                0 <= i < state.tickets.len() ==> i < after.tickets.len() && #[trigger] after.tickets[i]
                    == state.tickets[i]
        }),
{
    if state.insert_verdict(attempt.ticket, attempt.expected_sold) is Ok {
        lemma_granted_keeps_wf(
            state,
            attempt.ticket,
            attempt.expected_sold,
            attempt.close,
            attempt.now,
        );
        let at = state.raffle_index(attempt.ticket.raffle_id);
        assert(0 <= at < state.raffles.len() && state.raffles[at].id == attempt.ticket.raffle_id);
    }
}

/// However many attempts reach the store, in whatever order and with
/// whatever each of them had read before: no raffle ever has more tickets
/// granted than its capacity. The tickets granted of a raffle are those of
/// the stored tickets that name it, added up.
pub proof fn lemma_capacity_is_never_exceeded(state: StoreState, attempts: Seq<Attempt>)
    requires
        state.wf(),
    ensures
        after_attempts(state, attempts).wf(),
        forall|i: int|
            0 <= i < after_attempts(state, attempts).raffles.len() ==> after_attempts(
                state,
                attempts,
            ).sold((#[trigger] after_attempts(state, attempts).raffles[i]).id) <= after_attempts(
                state,
                attempts,
            ).raffles[i].ticket_amount,
    decreases attempts.len(),
{
    if attempts.len() > 0 {
        lemma_capacity_is_never_exceeded(state, attempts.drop_last());
        lemma_attempt_keeps_raffles(after_attempts(state, attempts.drop_last()), attempts.last());
    }
}

/// A request that is served while nobody else changes the store is one
/// attempt at most: what holds after every attempt holds after every
/// request.
pub proof fn lemma_purchase_is_an_attempt(
    state: StoreState,
    pipeline: ValidationPipeline,
    request: Ticket,
    fetched: Result<SolanaTX, FetchError>,
    now: i64,
)
    requires
        state.wf(),
    ensures
        after_purchase(state, pipeline, request, fetched, now).wf(),
        after_purchase(state, pipeline, request, fetched, now) == state || exists|attempt: Attempt|
            after_purchase(state, pipeline, request, fetched, now) == #[trigger] after_attempts(
                state,
                seq![attempt],
            ),
{
    match assessed(state, pipeline, request, fetched) {
        Err(_) => {},
        Ok(reservation) => {
            let attempt = Attempt {
                ticket: ticket_for(request, reservation),
                expected_sold: reservation.expected_sold,
                close: reservation.close,
                now,
            };
            lemma_attempt_keeps_raffles(state, attempt);
            let one = seq![attempt];
            assert(one.len() == 1);
            assert(one.drop_last() =~= Seq::<Attempt>::empty());
            assert(after_attempts(state, one.drop_last()) == state);
            assert(one.last() == attempt);
            assert(after_purchase(state, pipeline, request, fetched, now) == after_attempts(
                state,
                one,
            ));
        },
    }
}

/// A granted ticket spends its payment reference.
pub proof fn lemma_grant_spends_reference(state: StoreState, attempt: Attempt)
    requires
        state.wf(),
        state.insert_verdict(attempt.ticket, attempt.expected_sold) is Ok,
    ensures
        state.after_attempt(
            attempt.ticket,
            attempt.expected_sold,
            attempt.close,
            attempt.now,
        ).reference_used(attempt.ticket.spl_tx_signature@),
{
    let after = state.after_attempt(attempt.ticket, attempt.expected_sold, attempt.close, attempt.now);
    assert(after.tickets[state.tickets.len() as int].spl_tx_signature@
        == attempt.ticket.spl_tx_signature@);
}

/// A payment reference that has bought a ticket stays spent through every
/// attempt that follows, and every attempt that presents it again is refused
/// as a duplicate, whatever else it holds and whenever its request had read
/// the store.
pub proof fn lemma_spent_reference_is_refused(
    state: StoreState,
    attempts: Seq<Attempt>,
    again: Attempt,
)
    requires
        state.wf(),
        state.reference_used(again.ticket.spl_tx_signature@),
    ensures
        after_attempts(state, attempts).wf(),
        after_attempts(state, attempts).reference_used(again.ticket.spl_tx_signature@),
        after_attempts(state, attempts).insert_verdict(again.ticket, again.expected_sold) == Err::<
            (),
            StoreError,
        >(StoreError::DuplicateKey),
        after_attempts(state, attempts).after_attempt(
            again.ticket,
            again.expected_sold,
            again.close,
            again.now,
        ) == after_attempts(state, attempts),
    decreases attempts.len(),
{
    if attempts.len() > 0 {
        let earlier = after_attempts(state, attempts.drop_last());
        lemma_spent_reference_is_refused(state, attempts.drop_last(), again);
        lemma_attempt_keeps_raffles(earlier, attempts.last());
        let at = choose|i: int|
            0 <= i < earlier.tickets.len() && (#[trigger] earlier.tickets[i]).spl_tx_signature@
                == again.ticket.spl_tx_signature@;
        let after = after_attempts(state, attempts);
        assert(after.tickets[at] == earlier.tickets[at]);
    }
}

/// A request that presents a spent payment reference is rejected, whatever
/// checks are switched on, and leaves the store as it was.
pub proof fn lemma_spent_reference_is_rejected(
    state: StoreState,
    pipeline: ValidationPipeline,
    request: Ticket,
    fetched: Result<SolanaTX, FetchError>,
    now: i64,
)
    requires
        state.wf(),
        state.reference_used(request.spl_tx_signature@),
    ensures
        settled(state, pipeline, request, fetched) is Err,
        after_purchase(state, pipeline, request, fetched, now) == state,
        pipeline.settings.signature_uniqueness && fetched is Ok ==> (assessed(
            state,
            pipeline,
            request,
            fetched,
        ) matches Err(rejection) && rejection is ValidationFailure),
{
    if fetched is Ok && pipeline.settings.signature_uniqueness {
        let tx = fetched->Ok_0;
        let raffle = state.found_raffle(request.raffle_id);
        assert(pipeline.fails(CheckName::SignatureUniqueness, tx, raffle, true));
    }
}

/// A closed raffle stays closed, and stays, through every attempt.
pub proof fn lemma_closed_stays_closed(state: StoreState, attempts: Seq<Attempt>, id: u128)
    requires
        state.wf(),
        state.has_raffle(id),
        state.raffle(id).status == RaffleStatus::Closed,
    ensures
        after_attempts(state, attempts).wf(),
        after_attempts(state, attempts).has_raffle(id),
        after_attempts(state, attempts).raffle(id).status == RaffleStatus::Closed,
    decreases attempts.len(),
{
    if attempts.len() > 0 {
        let earlier = after_attempts(state, attempts.drop_last());
        let after = after_attempts(state, attempts);
        lemma_closed_stays_closed(state, attempts.drop_last(), id);
        lemma_attempt_keeps_raffles(earlier, attempts.last());
        let at = earlier.raffle_index(id);
        assert(0 <= at < earlier.raffles.len() && earlier.raffles[at].id == id);
        assert(after.raffles[at].id == id);
        lemma_one_index(after, id, at);
    }
}

/// A revision never opens a closed raffle again: it is refused, or the
/// raffle is closed after it.
pub proof fn lemma_revision_keeps_closed(state: StoreState, raffle: Raffle, now: i64, id: u128)
    requires
        state.wf(),
        state.has_raffle(id),
        state.raffle(id).status == RaffleStatus::Closed,
    ensures
        state.after_revision(raffle, now).has_raffle(id),
        state.after_revision(raffle, now).raffle(id).status == RaffleStatus::Closed,
{
    let after = state.after_revision(raffle, now);
    let at = state.raffle_index(id);
    assert(0 <= at < state.raffles.len() && state.raffles[at].id == id);
    if state.revision_verdict(raffle) == Ok::<bool, StoreError>(true) {
        let revised_at = state.raffle_index(raffle.id);
        assert(0 <= revised_at < state.raffles.len() && state.raffles[revised_at].id == raffle.id);
        lemma_same_identifiers_keep_wf(state, after);
        assert(after.raffles[at].id == id);
        lemma_one_index(after, id, at);
        if revised_at == at {
            assert(raffle.status.rank() >= RaffleStatus::Closed.rank());
        }
    }
}

/// With the check that the raffle is running switched on, a payment for a
/// closed raffle never passes validation. It is rejected at that check
/// unless a check that comes before it, on the token or on the status of the
/// transaction, has failed already.
pub proof fn lemma_closed_raffle_is_rejected(
    pipeline: ValidationPipeline,
    tx: SolanaTX,
    raffle: Raffle,
    signature_used: bool,
)
    requires
        pipeline.settings.raffle_running,
        raffle.status == RaffleStatus::Closed,
    ensures
        pipeline.verdict_of(tx, Some(raffle), signature_used) is Err,
        !pipeline.fails(CheckName::TokenMatch, tx, Some(raffle), signature_used) && !pipeline.fails(
            CheckName::TransactionStatus,
            tx,
            Some(raffle),
            signature_used,
        ) ==> pipeline.verdict_of(tx, Some(raffle), signature_used) == Err::<(), CheckName>(
            CheckName::RaffleRunning,
        ),
{
    assert(pipeline.fails(CheckName::RaffleRunning, tx, Some(raffle), signature_used));
}

/// The check on the destination decides by its switch alone: a payment
/// that went elsewhere than to the receiving address, and that no other
/// check objects to, passes while the check is switched off and is rejected
/// at that check, under its name, once it is switched on.
pub proof fn lemma_destination_switch(
    off: ValidationPipeline,
    on: ValidationPipeline,
    tx: SolanaTX,
    raffle: Option<Raffle>,
    signature_used: bool,
)
    requires
        !off.settings.destination_validity,
        on.settings.destination_validity,
        on.wallet == off.wallet,
        on.running_mode == off.running_mode,
        forall|check: CheckName|
            check != CheckName::DestinationValidity ==> on.settings.enabled(check)
                == off.settings.enabled(check),
        !is_substring(off.wallet@, tx.destination_owner@),
        forall|check: CheckName|
            check != CheckName::DestinationValidity ==> !off.fails(check, tx, raffle, signature_used),
    ensures
        off.verdict_of(tx, raffle, signature_used) is Ok,
        on.verdict_of(tx, raffle, signature_used) == Err::<(), CheckName>(
            CheckName::DestinationValidity,
        ),
{
    assert(!off.fails(CheckName::TokenMatch, tx, raffle, signature_used));
    assert(!off.fails(CheckName::TransactionStatus, tx, raffle, signature_used));
    assert(!off.fails(CheckName::RaffleExists, tx, raffle, signature_used));
    assert(!off.fails(CheckName::RaffleRunning, tx, raffle, signature_used));
    assert(!off.fails(CheckName::TemporalValidity, tx, raffle, signature_used));
    assert(!off.fails(CheckName::SignatureUniqueness, tx, raffle, signature_used));
    assert(on.settings.enabled(CheckName::TokenMatch) == off.settings.enabled(CheckName::TokenMatch));
    assert(on.settings.enabled(CheckName::TransactionStatus) == off.settings.enabled(
        CheckName::TransactionStatus,
    ));
    assert(on.settings.enabled(CheckName::RaffleExists) == off.settings.enabled(
        CheckName::RaffleExists,
    ));
    assert(on.settings.enabled(CheckName::RaffleRunning) == off.settings.enabled(
        CheckName::RaffleRunning,
    ));
    assert(on.settings.enabled(CheckName::TemporalValidity) == off.settings.enabled(
        CheckName::TemporalValidity,
    ));
}

/// A text that is to be contained may as well be equal: a transaction in
/// the very token of the raffle meets the check on the token, and a payment
/// to the very receiving address meets the check on the destination.
pub proof fn lemma_exact_match_suffices(
    pipeline: ValidationPipeline,
    tx: SolanaTX,
    raffle: Raffle,
    signature_used: bool,
)
    ensures
        tx.token_symbol@ == raffle.ticket_token_name@ ==> pipeline.satisfied(
            CheckName::TokenMatch,
            tx,
            Some(raffle),
            signature_used,
        ),
        tx.destination_owner@ == pipeline.wallet@ ==> pipeline.satisfied(
            CheckName::DestinationValidity,
            tx,
            Some(raffle),
            signature_used,
        ),
{
    lemma_substring_of_itself(tx.token_symbol@);
    lemma_substring_of_itself(tx.destination_owner@);
}

/// What the calculator grants is never more than is left of the raffle,
/// and never more than the payment buys. The raffle is to close exactly
/// when something was left and the grant uses all of it up. Nothing at all
/// is granted only where nothing is left or the payment is short of one
/// ticket.
pub proof fn lemma_allocation_stays_within_bounds(
    payment: Amount,
    price: Amount,
    capacity: u16,
    sold: u64,
)
    requires
        price.units > 0,
    ensures
        ({
            let granted = allocation_of(payment, price, capacity, sold);
            let remaining = capacity - sold;
            &&& remaining <= 0 ==> granted.tickets == 0
            &&& remaining > 0 ==> granted.tickets <= remaining
            &&& sold + granted.tickets <= capacity || granted.tickets == 0
            &&& whole_units(payment, price) >= 0 ==> granted.tickets <= whole_units(payment, price)
            &&& granted.should_close <==> remaining > 0 && granted.tickets == remaining
            &&& granted.tickets == 0 <==> remaining <= 0 || whole_units(payment, price) <= 0
            &&& granted.decision == AllocationDecision::SoldOut <==> remaining <= 0
            &&& granted.decision == AllocationDecision::Partial <==> remaining > 0 && whole_units(
                payment,
                price,
            ) > remaining
        }),
{
}

/// A request that is being served, where it stands, and what it has come
/// to know: the payment that its lookup found, and the raffle as it stood
/// when the request was validated.
pub struct Served {
    pub request: Ticket,
    pub state: PurchaseState,
    pub found: Option<SolanaTX>,
    pub validated: Option<Raffle>,
}

/// A store and the requests that are served against it side by side.
pub struct System {
    pub store: StoreState,
    pub served: Seq<Served>,
}

/// What happens next in a system: one of the requests gets the answer that
/// it is waiting for.
pub enum Turn {
    /// The lookup of the payment of request `who` has ended.
    Fetched { who: int, lookup: Result<SolanaTX, FetchError> },
    /// Request `who` reads the store as it is now.
    Loaded { who: int },
    /// The store answers, at `now`, the grant that request `who` has asked
    /// for.
    Stored { who: int, now: i64 },
}

impl Turn {
    /// The request whose turn it is.
    pub open spec fn who(self) -> int {
        match self {
            Turn::Fetched { who, .. } => who,
            Turn::Loaded { who } => who,
            Turn::Stored { who, .. } => who,
        }
    }
}

impl Served {
    /// The request with the payment noted that its lookup found, where it
    /// was waiting for the lookup and the lookup found one.
    pub open spec fn noting_payment(self, lookup: Result<SolanaTX, FetchError>) -> Served {
        if self.state is Fetching && lookup is Ok {
            Served { found: Some(lookup->Ok_0), ..self }
        } else {
            self
        }
    }

    /// The request with the raffle noted as it was read, where the request
    /// was waiting to be validated.
    pub open spec fn noting_raffle(self, raffle: Option<Raffle>) -> Served {
        if self.state is Validating {
            Served { validated: raffle, ..self }
        } else {
            self
        }
    }
}

impl System {
    /// The system after the request `who` has moved to `state`.
    pub open spec fn moved(self, who: int, state: PurchaseState) -> System {
        System {
            served: self.served.update(who, Served { state, ..self.served[who] }),
            ..self
        }
    }

    /// The system after one turn. A request reads the store as it is when
    /// its turn comes, and a grant is answered by the store as it is when
    /// the answer is given, whatever the request had read before. A turn of
    /// a request that there is not, or that has asked for no grant, changes
    /// nothing.
    pub open spec fn after_turn(self, pipeline: ValidationPipeline, turn: Turn) -> System {
        if !(0 <= turn.who() < self.served.len()) {
            self
        } else {
            let served = self.served[turn.who()];
            match turn {
                Turn::Fetched { who, lookup } => System {
                    served: self.served.update(who, served.noting_payment(lookup)),
                    ..self
                }.moved(who, next(pipeline, served.state, PurchaseEvent::Fetched { lookup }).0),
                Turn::Loaded { who } => System {
                    served: self.served.update(
                        who,
                        served.noting_raffle(self.store.found_raffle(served.request.raffle_id)),
                    ),
                    ..self
                }.moved(
                    who,
                    next(
                        pipeline,
                        served.state,
                        PurchaseEvent::Loaded {
                            raffle: self.store.found_raffle(served.request.raffle_id),
                            signature_used: self.store.reference_used(
                                served.request.spl_tx_signature@,
                            ),
                        },
                    ).0,
                ),
                Turn::Stored { who, now } => match served.state {
                    PurchaseState::Allocating { reservation, retried } => {
                        let ticket = ticket_for(served.request, reservation);
                        let answer = self.store.insert_verdict(ticket, reservation.expected_sold);
                        System {
                            store: self.store.after_attempt(
                                ticket,
                                reservation.expected_sold,
                                reservation.close,
                                now,
                            ),
                            ..self
                        }.moved(who, next(pipeline, served.state, PurchaseEvent::Stored { answer }).0)
                    },
                    _ => self,
                },
            }
        }
    }

    /// The system after the turns were taken in their order.
    pub open spec fn after_turns(self, pipeline: ValidationPipeline, turns: Seq<Turn>) -> System
        decreases turns.len(),
    {
        if turns.len() == 0 {
            self
        } else {
            self.after_turns(pipeline, turns.drop_last()).after_turn(pipeline, turns.last())
        }
    }
}

/// A turn changes the store by one attempt at most, and leaves every
/// request what it asks for.
pub proof fn lemma_turn_is_an_attempt(system: System, pipeline: ValidationPipeline, turn: Turn)
    requires
        system.store.wf(),
    ensures
        ({
            let after = system.after_turn(pipeline, turn);
            &&& after.store.wf()
            &&& after.store == system.store || exists|attempt: Attempt|
                after.store == #[trigger] system.store.after_attempt(
                    attempt.ticket,
                    attempt.expected_sold,
                    attempt.close,
                    attempt.now,
                )
            &&& after.served.len() == system.served.len()
            &&& forall|i: int|
                0 <= i < system.served.len() ==> (#[trigger] after.served[i]).request
                    == system.served[i].request
            &&& forall|i: int|
                0 <= i < system.served.len() && i != turn.who() ==> #[trigger] after.served[i]
                    == system.served[i]
        }),
{
    let after = system.after_turn(pipeline, turn);
    if 0 <= turn.who() < system.served.len() {
        let served = system.served[turn.who()];
        match turn {
            Turn::Stored { who, now } => match served.state {
                PurchaseState::Allocating { reservation, retried } => {
                    let attempt = Attempt {
                        ticket: ticket_for(served.request, reservation),
                        expected_sold: reservation.expected_sold,
                        close: reservation.close,
                        now,
                    };
                    lemma_attempt_keeps_raffles(system.store, attempt);
                    assert(after.store == system.store.after_attempt(
                        attempt.ticket,
                        attempt.expected_sold,
                        attempt.close,
                        attempt.now,
                    ));
                },
                _ => {},
            },
            _ => {},
        }
    }
}

/// However many requests are served side by side, and in whatever order
/// their turns come: no raffle ever has more tickets granted than its
/// capacity.
pub proof fn lemma_side_by_side_never_oversells(
    system: System,
    pipeline: ValidationPipeline,
    turns: Seq<Turn>,
)
    requires
        system.store.wf(),
    ensures
        system.after_turns(pipeline, turns).store.wf(),
        forall|i: int|
            0 <= i < system.after_turns(pipeline, turns).store.raffles.len() ==> system.after_turns(
                pipeline,
                turns,
            ).store.sold((#[trigger] system.after_turns(pipeline, turns).store.raffles[i]).id)
                <= system.after_turns(pipeline, turns).store.raffles[i].ticket_amount,
    decreases turns.len(),
{
    if turns.len() > 0 {
        lemma_side_by_side_never_oversells(system, pipeline, turns.drop_last());
        lemma_turn_is_an_attempt(
            system.after_turns(pipeline, turns.drop_last()),
            pipeline,
            turns.last(),
        );
    }
}

/// Once a payment reference has bought a ticket, no request that presents
/// it is granted anything any more: not one that arrives later, and not one
/// that was under way already, whatever it had read and however far it had
/// come.
pub proof fn lemma_spent_reference_never_commits(
    system: System,
    pipeline: ValidationPipeline,
    turns: Seq<Turn>,
    who: int,
)
    requires
        system.store.wf(),
        0 <= who < system.served.len(),
        system.store.reference_used(system.served[who].request.spl_tx_signature@),
        !(system.served[who].state is Committed),
    ensures
        system.after_turns(pipeline, turns).store.wf(),
        system.after_turns(pipeline, turns).served.len() == system.served.len(),
        system.after_turns(pipeline, turns).served[who].request == system.served[who].request,
        system.after_turns(pipeline, turns).store.reference_used(
            system.served[who].request.spl_tx_signature@,
        ),
        !(system.after_turns(pipeline, turns).served[who].state is Committed),
    decreases turns.len(),
{
    if turns.len() > 0 {
        let earlier = system.after_turns(pipeline, turns.drop_last());
        let after = system.after_turns(pipeline, turns);
        let turn = turns.last();
        let reference = system.served[who].request.spl_tx_signature@;
        lemma_spent_reference_never_commits(system, pipeline, turns.drop_last(), who);
        lemma_turn_is_an_attempt(earlier, pipeline, turn);
        // the reference stays spent
        let at = choose|i: int|
            0 <= i < earlier.store.tickets.len() && (#[trigger] earlier.store.tickets[i]).spl_tx_signature@
                == reference;
        if after.store != earlier.store {
            let attempt = choose|attempt: Attempt|
                after.store == #[trigger] earlier.store.after_attempt(
                    attempt.ticket,
                    attempt.expected_sold,
                    attempt.close,
                    attempt.now,
                );
            lemma_attempt_keeps_raffles(earlier.store, attempt);
        }
        assert(after.store.tickets[at] == earlier.store.tickets[at]);
        // and the request is not granted anything
        if turn.who() == who {
            let served = earlier.served[who];
            match turn {
                Turn::Stored { who, now } => match served.state {
                    PurchaseState::Allocating { reservation, retried } => {
                        let ticket = ticket_for(served.request, reservation);
                        assert(earlier.store.insert_verdict(ticket, reservation.expected_sold) == Err::<
                            (),
                            StoreError,
                        >(StoreError::DuplicateKey));
                    },
                    _ => {},
                },
                _ => {},
            }
        }
    }
}

/// A raffle that has closed stays closed however many requests are served
/// side by side, and with the check that the raffle is running switched on
/// a request that reads the store from then on is not granted anything: it
/// is rejected when it has read.
pub proof fn lemma_closed_raffle_takes_no_more(
    system: System,
    pipeline: ValidationPipeline,
    turns: Seq<Turn>,
    id: u128,
)
    requires
        system.store.wf(),
        system.store.has_raffle(id),
        system.store.raffle(id).status == RaffleStatus::Closed,
    ensures
        system.after_turns(pipeline, turns).store.wf(),
        system.after_turns(pipeline, turns).store.has_raffle(id),
        system.after_turns(pipeline, turns).store.raffle(id).status == RaffleStatus::Closed,
        forall|who: int|
            #![trigger system.after_turns(pipeline, turns).served[who]]
            {
                let now = system.after_turns(pipeline, turns);
                0 <= who < now.served.len() && pipeline.settings.raffle_running
                    && now.served[who].request.raffle_id == id && now.served[who].state
                    is Validating ==> now.after_turn(pipeline, Turn::Loaded { who }).served[who].state
                    is Rejected
            },
    decreases turns.len(),
{
    let now = system.after_turns(pipeline, turns);
    if turns.len() > 0 {
        let earlier = system.after_turns(pipeline, turns.drop_last());
        lemma_closed_raffle_takes_no_more(system, pipeline, turns.drop_last(), id);
        lemma_turn_is_an_attempt(earlier, pipeline, turns.last());
        if now.store != earlier.store {
            let attempt = choose|attempt: Attempt|
                now.store == #[trigger] earlier.store.after_attempt(
                    attempt.ticket,
                    attempt.expected_sold,
                    attempt.close,
                    attempt.now,
                );
            lemma_closed_stays_closed(earlier.store, seq![attempt], id);
            let one = seq![attempt];
            assert(one.drop_last() =~= Seq::<Attempt>::empty());
            assert(after_attempts(earlier.store, one.drop_last()) == earlier.store);
            assert(one.last() == attempt);
            assert(after_attempts(earlier.store, one) == now.store);
        }
    }
    assert forall|who: int|
        #![trigger now.served[who]]
        0 <= who < now.served.len() && pipeline.settings.raffle_running
            && now.served[who].request.raffle_id == id && now.served[who].state
            is Validating implies now.after_turn(pipeline, Turn::Loaded { who }).served[who].state
            is Rejected by {
        let served = now.served[who];
        let tx = served.state->tx;
        let used = now.store.reference_used(served.request.spl_tx_signature@);
        lemma_closed_raffle_is_rejected(pipeline, tx, now.store.raffle(id), used);
    }
}

} // verus!
