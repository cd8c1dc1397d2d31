//! Requests served side by side are granted what they would be granted one
//! after another.
//!
//! A grant is made on the condition that the raffle has sold what the
//! request saw sold. Whatever else has happened meanwhile, a request whose
//! grant the store accepts would have been granted the very same had it been
//! served alone at that moment.

use crate::amount::Amount;
use crate::laws::{
    lemma_attempt_keeps_raffles, lemma_turn_is_an_attempt, Attempt, Served, System, Turn,
};
use crate::model::{Raffle, RaffleStatus, SolanaTX, Ticket};
use crate::purchase::{
    after_purchase, assessed, plan, settled, ticket_for, PurchaseState, Rejection, Reservation,
};
use crate::store::{lemma_one_index, StoreState};
use crate::validator::ValidationPipeline;
use vstd::prelude::*;

verus! {

/// Whether two readings of a raffle agree in what the raffle offers: the
/// identifier, the capacity, the price, the token and the time of creation.
/// A grant changes none of these.
pub open spec fn same_offer(a: Raffle, b: Raffle) -> bool {
    &&& a.id == b.id
    &&& a.ticket_amount == b.ticket_amount
    &&& a.ticket_price == b.ticket_price
    &&& a.ticket_token_name == b.ticket_token_name
    &&& a.date_created == b.date_created
}

/// What holds of a request that has passed validation, against the store
/// as it is now: the request knows its payment and the raffle as it was
/// validated; the raffle is still stored and offers the same; the payment
/// passes the checks against the raffle as it was validated; and the raffle
/// has the status that it had then, unless it has been used up since.
pub open spec fn validated_against(
    store: StoreState,
    pipeline: ValidationPipeline,
    served: Served,
) -> bool {
    let stored = store.raffle(served.request.raffle_id);
    &&& served.found is Some
    &&& served.validated is Some
    &&& store.has_raffle(served.request.raffle_id)
    &&& same_offer(served.validated->0, stored)
    &&& pipeline.verdict_of(served.found->0, served.validated, false) is Ok
    &&& (stored.status == served.validated->0.status || stored.tickets_sold
        >= stored.ticket_amount)
}

/// The raffle `raffle` as a reader saw it who saw `sold` tickets sold.
pub open spec fn seen_with(raffle: Raffle, sold: u16) -> Raffle {
    Raffle { tickets_sold: sold, ..raffle }
}

/// What holds of a request in every state that it can reach from its
/// beginning, against the store as it is now. A request that asks for a
/// grant asks for what the payment buys of the raffle at the count of tickets
/// that the request saw sold.
pub open spec fn coherent_request(
    store: StoreState,
    pipeline: ValidationPipeline,
    served: Served,
) -> bool {
    match served.state {
        PurchaseState::Validating { tx } => served.found == Some(tx),
        PurchaseState::Allocating { reservation, retried } => {
            &&& validated_against(store, pipeline, served)
            &&& reservation.payment == served.found->0.amount
            &&& plan(
                reservation.payment,
                Some(seen_with(store.raffle(served.request.raffle_id), reservation.expected_sold)),
                false,
            ) == Ok::<Reservation, Rejection>(reservation)
        },
        PurchaseState::Reloading { payment } => {
            &&& validated_against(store, pipeline, served)
            &&& payment == served.found->0.amount
        },
        _ => true,
    }
}

/// What holds of a system in every state that it can reach from one whose
/// requests are all at their beginning.
pub open spec fn coherent(system: System, pipeline: ValidationPipeline) -> bool {
    forall|i: int|
        0 <= i < system.served.len() ==> coherent_request(
            system.store,
            pipeline,
            #[trigger] system.served[i],
        )
}

/// A payment reference that has been used can only make a check fail: what
/// passes with a used reference passes with a fresh one.
pub proof fn lemma_fresh_reference_passes(
    pipeline: ValidationPipeline,
    tx: SolanaTX,
    raffle: Option<Raffle>,
    used: bool,
)
    requires
        pipeline.verdict_of(tx, raffle, used) is Ok,
    ensures
        pipeline.verdict_of(tx, raffle, false) is Ok,
{
}

/// The checks read of a raffle what it offers and its status, and nothing
/// else.
pub proof fn lemma_checks_read_offer_and_status(
    pipeline: ValidationPipeline,
    tx: SolanaTX,
    a: Raffle,
    b: Raffle,
    used: bool,
)
    requires
        same_offer(a, b),
        a.status == b.status,
    ensures
        pipeline.verdict_of(tx, Some(a), used) == pipeline.verdict_of(tx, Some(b), used),
{
}

/// What is reserved of a raffle is at least one ticket and no more than
/// is left, at the count that was seen; and it closes the raffle exactly when
/// it uses the raffle up.
pub proof fn lemma_reservation_fits(
    payment: Amount,
    raffle: Raffle,
    retried: bool,
    reservation: Reservation,
)
    requires
        plan(payment, Some(raffle), retried) == Ok::<Reservation, Rejection>(reservation),
    ensures
        reservation.tickets >= 1,
        reservation.expected_sold == raffle.tickets_sold,
        reservation.payment == payment,
        raffle.tickets_sold + reservation.tickets <= raffle.ticket_amount,
        reservation.close <==> raffle.tickets_sold + reservation.tickets == raffle.ticket_amount,
        plan(payment, Some(raffle), false) == Ok::<Reservation, Rejection>(reservation),
{
}

/// A grant changes the raffle that it is made of, in the count of tickets
/// sold, in the time of the last change and, where it closes the raffle, in
/// the status. It changes no other raffle, and of no raffle what it offers.
pub proof fn lemma_grant_changes_one_raffle(state: StoreState, attempt: Attempt, id: u128)
    requires
        state.wf(),
        state.has_raffle(id),
    ensures
        ({
            let after = state.after_attempt(
                attempt.ticket,
                attempt.expected_sold,
                attempt.close,
                attempt.now,
            );
            let granted = state.insert_verdict(attempt.ticket, attempt.expected_sold) is Ok
                && attempt.ticket.raffle_id == id;
            &&& after.wf()
            &&& after.has_raffle(id)
            &&& same_offer(state.raffle(id), after.raffle(id))
            &&& granted ==> after.raffle(id).tickets_sold == state.raffle(id).tickets_sold
                + attempt.ticket.amount
            &&& granted ==> after.raffle(id).status == (if attempt.close {
                RaffleStatus::Closed
            } else {
                state.raffle(id).status
            })
            &&& !granted ==> after.raffle(id).tickets_sold == state.raffle(id).tickets_sold
            &&& !granted ==> after.raffle(id).status == state.raffle(id).status
        }),
{
    let after = state.after_attempt(attempt.ticket, attempt.expected_sold, attempt.close, attempt.now);
    lemma_attempt_keeps_raffles(state, attempt);
    let at = state.raffle_index(id);
    assert(0 <= at < state.raffles.len() && state.raffles[at].id == id);
    assert(after.raffles[at].id == id);
    lemma_one_index(after, id, at);
    if state.insert_verdict(attempt.ticket, attempt.expected_sold) is Ok {
        let of = state.raffle_index(attempt.ticket.raffle_id);
        assert(0 <= of < state.raffles.len() && state.raffles[of].id == attempt.ticket.raffle_id);
        lemma_one_index(state, attempt.ticket.raffle_id, of);
        if attempt.ticket.raffle_id == id {
            assert(of == at);
        } else {
            assert(of != at);
        }
    }
}

/// Whether an attempt closes a raffle only by using it up: where the
/// store accepts the attempt and the attempt closes the raffle, the raffle
/// has sold all its tickets afterwards.
pub open spec fn closes_by_using_up(store: StoreState, attempt: Attempt) -> bool {
    store.insert_verdict(attempt.ticket, attempt.expected_sold) is Ok && attempt.close
        ==> store.raffle(attempt.ticket.raffle_id).tickets_sold + attempt.ticket.amount
        == store.raffle(attempt.ticket.raffle_id).ticket_amount
}

/// The attempt that a request makes which asks for a grant.
pub open spec fn attempt_of(served: Served, reservation: Reservation, now: i64) -> Attempt {
    Attempt {
        ticket: ticket_for(served.request, reservation),
        expected_sold: reservation.expected_sold,
        close: reservation.close,
        now,
    }
}

/// The attempt of a request in a coherent system closes a raffle only by
/// using it up.
pub proof fn lemma_requests_close_by_using_up(
    store: StoreState,
    pipeline: ValidationPipeline,
    served: Served,
    now: i64,
)
    requires
        store.wf(),
        served.state is Allocating,
        coherent_request(store, pipeline, served),
    ensures
        closes_by_using_up(store, attempt_of(served, served.state->reservation, now)),
{
    let reservation = served.state->reservation;
    let stored = store.raffle(served.request.raffle_id);
    lemma_reservation_fits(
        reservation.payment,
        seen_with(stored, reservation.expected_sold),
        false,
        reservation,
    );
}

/// What holds of a request that does not move still holds after an
/// attempt of another has reached the store.
pub proof fn lemma_attempt_keeps_request(
    store: StoreState,
    pipeline: ValidationPipeline,
    served: Served,
    attempt: Attempt,
)
    requires
        store.wf(),
        coherent_request(store, pipeline, served),
        closes_by_using_up(store, attempt),
    ensures
        coherent_request(
            store.after_attempt(attempt.ticket, attempt.expected_sold, attempt.close, attempt.now),
            pipeline,
            served,
        ),
{
    let after = store.after_attempt(attempt.ticket, attempt.expected_sold, attempt.close, attempt.now);
    let id = served.request.raffle_id;
    if served.state is Allocating || served.state is Reloading {
        lemma_grant_changes_one_raffle(store, attempt, id);
        let before = store.raffle(id);
        let now = after.raffle(id);
        assert(validated_against(after, pipeline, served));
        if served.state is Allocating {
            let reservation = served.state->reservation;
            assert(seen_with(now, reservation.expected_sold).ticket_price == seen_with(
                before,
                reservation.expected_sold,
            ).ticket_price);
        }
    }
}

/// A turn keeps a coherent system coherent.
pub proof fn lemma_turn_keeps_coherence(system: System, pipeline: ValidationPipeline, turn: Turn)
    requires
        system.store.wf(),
        coherent(system, pipeline),
    ensures
        system.after_turn(pipeline, turn).store.wf(),
        coherent(system.after_turn(pipeline, turn), pipeline),
{
    let after = system.after_turn(pipeline, turn);
    lemma_turn_is_an_attempt(system, pipeline, turn);
    if 0 <= turn.who() < system.served.len() {
        let who = turn.who();
        let mover = system.served[who];
        assert(coherent_request(system.store, pipeline, mover));
        assert forall|i: int| 0 <= i < after.served.len() implies coherent_request(
            after.store,
            pipeline,
            #[trigger] after.served[i],
        ) by {
            assert(coherent_request(system.store, pipeline, system.served[i]));
            if i != who {
                assert(after.served[i] == system.served[i]);
                match turn {
                    Turn::Stored { who, now } => {
                        if mover.state is Allocating {
                            lemma_requests_close_by_using_up(system.store, pipeline, mover, now);
                            lemma_attempt_keeps_request(
                                system.store,
                                pipeline,
                                system.served[i],
                                attempt_of(mover, mover.state->reservation, now),
                            );
                        }
                    },
                    _ => {},
                }
            } else {
                lemma_mover_stays_coherent(system, pipeline, turn);
            }
        }
    }
}

/// The request whose turn it is stays coherent.
pub proof fn lemma_mover_stays_coherent(system: System, pipeline: ValidationPipeline, turn: Turn)
    requires
        system.store.wf(),
        0 <= turn.who() < system.served.len(),
        coherent_request(system.store, pipeline, system.served[turn.who()]),
    ensures
        coherent_request(
            system.after_turn(pipeline, turn).store,
            pipeline,
            system.after_turn(pipeline, turn).served[turn.who()],
        ),
{
    let after = system.after_turn(pipeline, turn);
    let who = turn.who();
    let mover = system.served[who];
    let moved = after.served[who];
    let id = mover.request.raffle_id;
    match turn {
        Turn::Fetched { who, lookup } => {},
        Turn::Loaded { who } => {
            let raffle = system.store.found_raffle(id);
            let used = system.store.reference_used(mover.request.spl_tx_signature@);
            match mover.state {
                PurchaseState::Validating { tx } => {
                    if moved.state is Allocating {
                        let reservation = moved.state->reservation;
                        lemma_reservation_fits(tx.amount, raffle->0, false, reservation);
                        lemma_fresh_reference_passes(pipeline, tx, raffle, used);
                        assert(seen_with(raffle->0, reservation.expected_sold) == raffle->0);
                    }
                },
                PurchaseState::Reloading { payment } => {
                    if moved.state is Allocating {
                        let reservation = moved.state->reservation;
                        lemma_reservation_fits(payment, raffle->0, true, reservation);
                        assert(seen_with(raffle->0, reservation.expected_sold) == raffle->0);
                    }
                },
                _ => {},
            }
        },
        Turn::Stored { who, now } => {},
    }
}

/// A grant that the store accepts is the grant that the request would have
/// been given had it been served alone at that moment: the same number of
/// tickets, and the same store afterwards.
pub proof fn lemma_grant_is_a_serial_grant(
    system: System,
    pipeline: ValidationPipeline,
    who: int,
    now: i64,
)
    requires
        system.store.wf(),
        coherent(system, pipeline),
        0 <= who < system.served.len(),
        system.served[who].state is Allocating,
        system.store.insert_verdict(
            ticket_for(system.served[who].request, system.served[who].state->reservation),
            system.served[who].state->reservation.expected_sold,
        ) is Ok,
    ensures
        system.served[who].found is Some,
        settled(
            system.store,
            pipeline,
            system.served[who].request,
            Ok(system.served[who].found->0),
        ) == Ok::<u16, Rejection>(system.served[who].state->reservation.tickets),
        after_purchase(
            system.store,
            pipeline,
            system.served[who].request,
            Ok(system.served[who].found->0),
            now,
        ) == system.after_turn(pipeline, Turn::Stored { who, now }).store,
        system.after_turn(pipeline, Turn::Stored { who, now }).served[who].state
            == (PurchaseState::Committed { tickets: system.served[who].state->reservation.tickets }),
{
    let served = system.served[who];
    let reservation = served.state->reservation;
    let id = served.request.raffle_id;
    let stored = system.store.raffle(id);
    let tx = served.found->0;
    assert(coherent_request(system.store, pipeline, served));
    lemma_reservation_fits(
        reservation.payment,
        seen_with(stored, reservation.expected_sold),
        false,
        reservation,
    );
    assert(seen_with(stored, reservation.expected_sold) == stored);
    lemma_checks_read_offer_and_status(pipeline, tx, served.validated->0, stored, false);
    assert(assessed(system.store, pipeline, served.request, Ok(tx)) == Ok::<Reservation, Rejection>(
        reservation,
    ));
}

/// A request served alone: the request, the payment that its lookup found,
/// and the time at which it is served.
pub struct Purchase {
    pub request: Ticket,
    pub payment: SolanaTX,
    pub now: i64,
}

/// The store after the purchases were served alone, one after another.
pub open spec fn after_purchases(
    store: StoreState,
    pipeline: ValidationPipeline,
    purchases: Seq<Purchase>,
) -> StoreState
    decreases purchases.len(),
{
    if purchases.len() == 0 {
        store
    } else {
        after_purchase(
            after_purchases(store, pipeline, purchases.drop_last()),
            pipeline,
            purchases.last().request,
            Ok(purchases.last().payment),
            purchases.last().now,
        )
    }
}

/// Whether each of the purchases, served alone in its turn, is granted
/// tickets.
pub open spec fn all_granted(
    store: StoreState,
    pipeline: ValidationPipeline,
    purchases: Seq<Purchase>,
) -> bool
    decreases purchases.len(),
{
    purchases.len() == 0 || (all_granted(store, pipeline, purchases.drop_last()) && settled(
        after_purchases(store, pipeline, purchases.drop_last()),
        pipeline,
        purchases.last().request,
        Ok(purchases.last().payment),
    ) is Ok)
}

/// Whether every request of the system is at its beginning.
pub open spec fn fresh(system: System) -> bool {
    forall|i: int| 0 <= i < system.served.len() ==> (#[trigger] system.served[i]).state is Fetching
}

/// Turns keep a coherent system coherent, and leave every request what it
/// asks for.
pub proof fn lemma_turns_keep_coherence(
    system: System,
    pipeline: ValidationPipeline,
    turns: Seq<Turn>,
)
    requires
        system.store.wf(),
        coherent(system, pipeline),
    ensures
        system.after_turns(pipeline, turns).store.wf(),
        coherent(system.after_turns(pipeline, turns), pipeline),
        system.after_turns(pipeline, turns).served.len() == system.served.len(),
        forall|i: int|
            0 <= i < system.served.len() ==> (#[trigger] system.after_turns(
                pipeline,
                turns,
            ).served[i]).request == system.served[i].request,
    decreases turns.len(),
{
    if turns.len() > 0 {
        let earlier = system.after_turns(pipeline, turns.drop_last());
        lemma_turns_keep_coherence(system, pipeline, turns.drop_last());
        lemma_turn_keeps_coherence(earlier, pipeline, turns.last());
        lemma_turn_is_an_attempt(earlier, pipeline, turns.last());
    }
}

/// However the turns of requests that are served side by side fall: the
/// store ends as if those requests that were granted tickets had been served
/// alone, one after another, in the order in which the store granted them.
/// Each of them is a request of the system and is granted tickets when it is
/// served alone in its turn; `lemma_grant_is_a_serial_grant` says that it is
/// granted the same number.
///
/// Requests that end rejected have no place in that order. A request that
/// met a raffle which had sold on, twice in a row, is rejected though served
/// alone it would have been granted tickets.
pub proof fn lemma_grants_are_those_of_a_serial_order(
    system: System,
    pipeline: ValidationPipeline,
    turns: Seq<Turn>,
) -> (serial: Seq<Purchase>)
    requires
        system.store.wf(),
        fresh(system),
    ensures
        system.after_turns(pipeline, turns).store == after_purchases(
            system.store,
            pipeline,
            serial,
        ),
        all_granted(system.store, pipeline, serial),
        forall|k: int|
            0 <= k < serial.len() ==> exists|i: int|
                0 <= i < system.served.len() && (#[trigger] system.served[i]).request
                    == (#[trigger] serial[k]).request,
{
    assert forall|i: int| 0 <= i < system.served.len() implies coherent_request(
        system.store,
        pipeline,
        #[trigger] system.served[i],
    ) by {}
    lemma_coherent_grants_are_serial(system, pipeline, turns)
}

/// The same of a system that is coherent, which a system is whose requests
/// are all at their beginning.
pub proof fn lemma_coherent_grants_are_serial(
    system: System,
    pipeline: ValidationPipeline,
    turns: Seq<Turn>,
) -> (serial: Seq<Purchase>)
    requires
        system.store.wf(),
        coherent(system, pipeline),
    ensures
        system.after_turns(pipeline, turns).store == after_purchases(
            system.store,
            pipeline,
            serial,
        ),
        all_granted(system.store, pipeline, serial),
        forall|k: int|
            0 <= k < serial.len() ==> exists|i: int|
                0 <= i < system.served.len() && (#[trigger] system.served[i]).request
                    == (#[trigger] serial[k]).request,
    decreases turns.len(),
{
    if turns.len() == 0 {
        Seq::empty()
    } else {
        let earlier = system.after_turns(pipeline, turns.drop_last());
        let turn = turns.last();
        let before = lemma_coherent_grants_are_serial(system, pipeline, turns.drop_last());
        lemma_turns_keep_coherence(system, pipeline, turns.drop_last());
        let who = turn.who();
        let grants = turn is Stored && 0 <= who < earlier.served.len() && earlier.served[who].state
            is Allocating && earlier.store.insert_verdict(
            ticket_for(earlier.served[who].request, earlier.served[who].state->reservation),
            earlier.served[who].state->reservation.expected_sold,
        ) is Ok;
        if grants {
            let now = turn->now;
            lemma_grant_is_a_serial_grant(earlier, pipeline, who, now);
            let purchase = Purchase {
                request: earlier.served[who].request,
                payment: earlier.served[who].found->0,
                now,
            };
            let serial = before.push(purchase);
            assert(serial.drop_last() =~= before);
            assert(serial.last() == purchase);
            assert(turn == (Turn::Stored { who, now }));
            assert forall|k: int| 0 <= k < serial.len() implies exists|i: int|
                0 <= i < system.served.len() && (#[trigger] system.served[i]).request == (
                #[trigger] serial[k]).request by {
                if k == before.len() {
                    assert(system.served[who].request == serial[k].request);
                } else {
                    assert(serial[k] == before[k]);
                }
            }
            serial
        } else {
            assert(system.after_turns(pipeline, turns).store == earlier.store);
            before
        }
    }
}

} // verus!
