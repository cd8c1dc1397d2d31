use raffle_engine::ambient::identifier_from;
use raffle_engine::amount::Amount;
use raffle_engine::db::{
    grant_verdict, refusal_of_missed_grant, removal_answer, revision_refusal, DatabaseRaffle,
};
use raffle_engine::store::StoreError;
use raffle_engine::model::{Raffle, RaffleStatus, Ticket};

fn raffle(capacity: u16) -> Raffle {
    Raffle {
        id: 0,
        title: "Spring raffle".to_string(),
        description: "One prize".to_string(),
        status: RaffleStatus::Closed,
        ticket_amount: capacity,
        ticket_price: Amount { units: 10, decimals: 0 },
        ticket_token_name: "USDC".to_string(),
        rule: "One winner".to_string(),
        date_created: -1,
        date_updated: -1,
        tickets_sold: 77,
    }
}

fn ticket(id: u128, raffle_id: u128, reference: &str, amount: u16) -> Ticket {
    Ticket {
        id,
        raffle_id,
        username: "alice".to_string(),
        spl_tx_signature: reference.to_string(),
        amount_send: Amount { units: 10 * amount as i64, decimals: 0 },
        amount,
        date_created: 0,
        date_updated: 0,
    }
}

fn store_with_raffle(id: u128, capacity: u16) -> DatabaseRaffle {
    let mut store = DatabaseRaffle::new();
    assert_eq!(store.insert_raffle_at(&mut raffle(capacity), id, 1000), Ok(()));
    store
}

fn sold(store: &DatabaseRaffle, raffle_id: u128) -> u32 {
    store.get_tickets_by_id_raffle(raffle_id).iter().map(|t| t.amount as u32).sum()
}

#[test]
fn new_store_is_empty() {
    let store = DatabaseRaffle::new();
    assert!(store.get_all_raffles().is_empty());
    assert!(store.get_all_tickets().is_empty());
    assert_eq!(store.get_raffle_by_id(1), None);
    assert_eq!(store.get_ticket_by_id(1), None);
    assert_eq!(store.get_spl_tx_in_ticket(&"sig".to_string()), None);
    assert!(store.get_tickets_by_id_raffle(1).is_empty());
}

#[test]
fn inserted_raffle_starts_created_and_unsold() {
    let mut store = DatabaseRaffle::new();
    let mut given = raffle(40);
    assert_eq!(store.insert_raffle_at(&mut given, 7, 1234), Ok(()));
    let expected = Raffle {
        id: 7,
        status: RaffleStatus::Created,
        date_created: 1234,
        date_updated: 1234,
        tickets_sold: 0,
        ..raffle(40)
    };
    assert_eq!(given, expected);
    assert_eq!(store.get_raffle_by_id(7), Some(&expected));
    assert_eq!(store.get_all_raffles(), &vec![expected]);
    assert_eq!(store.get_raffle_by_id(8), None);
}

#[test]
fn raffle_with_taken_identifier_or_bad_price_is_refused() {
    let mut store = store_with_raffle(7, 40);
    let mut again = raffle(10);
    assert_eq!(store.insert_raffle_at(&mut again, 7, 2000), Err(StoreError::DuplicateId));
    assert_eq!(again, raffle(10));
    let mut free = raffle(10);
    free.ticket_price = Amount { units: 0, decimals: 0 };
    assert_eq!(store.insert_raffle_at(&mut free, 8, 2000), Err(StoreError::InvalidPrice));
    let mut paid_to_play = raffle(10);
    paid_to_play.ticket_price = Amount { units: -5, decimals: 2 };
    assert_eq!(store.insert_raffle_at(&mut paid_to_play, 8, 2000), Err(StoreError::InvalidPrice));
    assert_eq!(store.get_all_raffles().len(), 1);
}

#[test]
fn insert_raffle_takes_identifier_and_time_from_outside() {
    let mut store = DatabaseRaffle::new();
    let mut first = raffle(10);
    let mut second = raffle(10);
    assert_eq!(store.insert_raffle(&mut first), Ok(()));
    assert_eq!(store.insert_raffle(&mut second), Ok(()));
    assert_ne!(first.id, second.id);
    assert!(first.id < 1u128 << 96);
    assert!(first.id > 0);
    // later than the first of January 2024
    assert!(first.date_created > 1_704_067_200);
    assert_eq!(first.date_created, first.date_updated);
    assert_eq!(first.status, RaffleStatus::Created);
    assert_eq!(store.get_raffle_by_id(second.id), Some(&second));
}

#[test]
fn conditional_insert_grants_and_counts() {
    let mut store = store_with_raffle(7, 10);
    assert_eq!(store.conditional_insert(ticket(1, 7, "sig-1", 4), 0, false, 2000), Ok(()));
    let stored = Ticket { date_created: 2000, date_updated: 2000, ..ticket(1, 7, "sig-1", 4) };
    assert_eq!(store.get_ticket_by_id(1), Some(&stored));
    assert_eq!(store.get_spl_tx_in_ticket(&"sig-1".to_string()), Some(&stored));
    let raffle = store.get_raffle_by_id(7).unwrap();
    assert_eq!(raffle.tickets_sold, 4);
    assert_eq!(raffle.status, RaffleStatus::Created);
    assert_eq!(raffle.date_updated, 2000);
    assert_eq!(raffle.date_created, 1000);
}

#[test]
fn conditional_insert_closes_on_request() {
    let mut store = store_with_raffle(7, 10);
    assert_eq!(store.conditional_insert(ticket(1, 7, "sig-1", 10), 0, true, 2000), Ok(()));
    let raffle = store.get_raffle_by_id(7).unwrap();
    assert_eq!(raffle.tickets_sold, 10);
    assert_eq!(raffle.status, RaffleStatus::Closed);
}

#[test]
fn conditional_insert_refusals_change_nothing() {
    let mut store = store_with_raffle(7, 10);
    assert_eq!(store.conditional_insert(ticket(1, 7, "sig-1", 4), 0, false, 2000), Ok(()));
    let raffles = store.get_all_raffles().clone();
    let tickets = store.get_all_tickets().clone();
    let refused = [
        (ticket(2, 7, "sig-1", 1), 4, StoreError::DuplicateKey),
        (ticket(2, 9, "sig-1", 1), 4, StoreError::DuplicateKey),
        (ticket(2, 9, "sig-2", 1), 4, StoreError::NotFound),
        (ticket(1, 7, "sig-2", 1), 4, StoreError::DuplicateId),
        (ticket(2, 7, "sig-2", 0), 4, StoreError::EmptyTicket),
        (ticket(2, 7, "sig-2", 1), 0, StoreError::VersionConflict),
        (ticket(2, 7, "sig-2", 1), 5, StoreError::VersionConflict),
        (ticket(2, 7, "sig-2", 7), 4, StoreError::CapacityExceeded),
        (ticket(2, 7, "sig-2", u16::MAX), 4, StoreError::CapacityExceeded),
    ];
    for (ticket, expected_sold, error) in refused {
        assert_eq!(store.conditional_insert(ticket, expected_sold, true, 3000), Err(error));
        assert_eq!(store.get_all_raffles(), &raffles);
        assert_eq!(store.get_all_tickets(), &tickets);
    }
    assert_eq!(store.conditional_insert(ticket(2, 7, "sig-2", 6), 4, true, 3000), Ok(()));
}

#[test]
fn racing_requests_never_oversell() {
    // two requests read the raffle while nothing is sold, then both try to grant
    let mut store = store_with_raffle(7, 10);
    let seen_by_first = store.get_raffle_by_id(7).unwrap().tickets_sold;
    let seen_by_second = store.get_raffle_by_id(7).unwrap().tickets_sold;
    assert_eq!(store.conditional_insert(ticket(1, 7, "sig-1", 6), seen_by_first, false, 2000), Ok(()));
    assert_eq!(
        store.conditional_insert(ticket(2, 7, "sig-2", 6), seen_by_second, false, 2001),
        Err(StoreError::VersionConflict)
    );
    assert_eq!(sold(&store, 7), 6);
    // the second reads again and is capped to what is left
    let seen_again = store.get_raffle_by_id(7).unwrap().tickets_sold;
    assert_eq!(seen_again, 6);
    assert_eq!(
        store.conditional_insert(ticket(2, 7, "sig-2", 6), seen_again, false, 2002),
        Err(StoreError::CapacityExceeded)
    );
    assert_eq!(store.conditional_insert(ticket(2, 7, "sig-2", 4), seen_again, true, 2003), Ok(()));
    assert_eq!(sold(&store, 7), 10);
    assert_eq!(store.get_raffle_by_id(7).unwrap().tickets_sold, 10);
    assert_eq!(store.get_raffle_by_id(7).unwrap().status, RaffleStatus::Closed);
}

#[test]
fn many_attempts_stay_within_capacity() {
    let mut store = store_with_raffle(7, 25);
    let mut granted = 0u32;
    for round in 0..200u32 {
        let amount = (round % 7) as u16;
        // every third attempt comes with a stale count
        let current = store.get_raffle_by_id(7).unwrap().tickets_sold;
        let expected = if round % 3 == 0 { current.saturating_sub(1) } else { current };
        let reference = format!("sig-{}", round % 50);
        let attempt = ticket(round as u128, 7, &reference, amount);
        if store.conditional_insert(attempt, expected, false, round as i64).is_ok() {
            granted += amount as u32;
        }
        let raffle = store.get_raffle_by_id(7).unwrap();
        assert!(raffle.tickets_sold <= raffle.ticket_amount);
        assert_eq!(sold(&store, 7), raffle.tickets_sold as u32);
        assert_eq!(granted, raffle.tickets_sold as u32);
    }
    assert!(granted > 0);
    assert!(granted <= 25);
}

#[test]
fn spent_reference_is_refused_for_every_raffle() {
    let mut store = store_with_raffle(7, 10);
    assert_eq!(store.insert_raffle_at(&mut raffle(10), 8, 1000), Ok(()));
    assert_eq!(store.conditional_insert(ticket(1, 7, "sig-1", 1), 0, false, 2000), Ok(()));
    assert_eq!(
        store.conditional_insert(ticket(2, 8, "sig-1", 1), 0, false, 2001),
        Err(StoreError::DuplicateKey)
    );
    assert_eq!(store.conditional_insert(ticket(3, 7, "sig-3", 1), 1, false, 2002), Ok(()));
    assert_eq!(
        store.conditional_insert(ticket(4, 7, "sig-1", 1), 2, false, 2003),
        Err(StoreError::DuplicateKey)
    );
    assert_eq!(store.get_all_tickets().len(), 2);
}

#[test]
fn insert_ticket_at_grants_against_current_count() {
    let mut store = store_with_raffle(7, 10);
    let mut first = ticket(1, 7, "sig-1", 4);
    assert_eq!(store.insert_ticket_at(&mut first, 2000), Ok(()));
    assert_eq!(first.date_created, 2000);
    assert_eq!(first.date_updated, 2000);
    assert_eq!(store.get_raffle_by_id(7).unwrap().status, RaffleStatus::Created);
    let mut second = ticket(2, 7, "sig-2", 7);
    assert_eq!(store.insert_ticket_at(&mut second, 2001), Err(StoreError::CapacityExceeded));
    assert_eq!(second, ticket(2, 7, "sig-2", 7));
    let mut third = ticket(3, 7, "sig-3", 6);
    assert_eq!(store.insert_ticket_at(&mut third, 2002), Ok(()));
    let raffle = store.get_raffle_by_id(7).unwrap();
    assert_eq!(raffle.tickets_sold, 10);
    assert_eq!(raffle.status, RaffleStatus::Closed);
    let mut fourth = ticket(4, 9, "sig-4", 1);
    assert_eq!(store.insert_ticket_at(&mut fourth, 2003), Err(StoreError::NotFound));
}

#[test]
fn insert_ticket_stamps_present_time() {
    let mut store = store_with_raffle(7, 10);
    let mut bought = ticket(1, 7, "sig-1", 4);
    assert_eq!(store.insert_ticket(&mut bought), Ok(()));
    assert!(bought.date_created > 1_704_067_200);
    assert_eq!(bought.date_created, bought.date_updated);
    assert_eq!(store.get_ticket_by_id(1), Some(&bought));
    let mut again = ticket(2, 7, "sig-1", 1);
    assert_eq!(store.insert_ticket(&mut again), Err(StoreError::DuplicateKey));
    assert_eq!(again.date_created, 0);
}

#[test]
fn tickets_are_listed_by_raffle_in_order() {
    let mut store = store_with_raffle(7, 10);
    assert_eq!(store.insert_raffle_at(&mut raffle(10), 8, 1000), Ok(()));
    assert_eq!(store.conditional_insert(ticket(1, 7, "a", 1), 0, false, 1), Ok(()));
    assert_eq!(store.conditional_insert(ticket(2, 8, "b", 2), 0, false, 2), Ok(()));
    assert_eq!(store.conditional_insert(ticket(3, 7, "c", 3), 1, false, 3), Ok(()));
    let of_seven: Vec<u128> = store.get_tickets_by_id_raffle(7).iter().map(|t| t.id).collect();
    assert_eq!(of_seven, vec![1, 3]);
    let of_eight: Vec<u128> = store.get_tickets_by_id_raffle(8).iter().map(|t| t.id).collect();
    assert_eq!(of_eight, vec![2]);
    assert!(store.get_tickets_by_id_raffle(9).is_empty());
    assert_eq!(store.get_all_tickets().len(), 3);
}

#[test]
fn update_raffle_revises_description_not_counts() {
    let mut store = store_with_raffle(7, 10);
    assert_eq!(store.conditional_insert(ticket(1, 7, "a", 3), 0, false, 1500), Ok(()));
    let revision = Raffle {
        id: 7,
        title: "Summer raffle".to_string(),
        description: "Two prizes".to_string(),
        status: RaffleStatus::Running,
        ticket_amount: 10,
        ticket_price: Amount { units: 25, decimals: 1 },
        ticket_token_name: "SOL".to_string(),
        rule: "Two winners".to_string(),
        date_created: 5,
        date_updated: 6,
        tickets_sold: 9,
    };
    assert_eq!(store.update_raffle_at(&revision, 3000), Ok(true));
    let expected = Raffle { date_created: 1000, date_updated: 3000, tickets_sold: 3, ..revision };
    assert_eq!(store.get_raffle_by_id(7), Some(&expected));
}

#[test]
fn update_raffle_refusals() {
    let mut store = store_with_raffle(7, 10);
    let stored = store.get_raffle_by_id(7).unwrap().clone();
    let unknown = Raffle { id: 8, ..stored.clone() };
    assert_eq!(store.update_raffle_at(&unknown, 3000), Ok(false));
    let grown = Raffle { ticket_amount: 11, ..stored.clone() };
    assert_eq!(store.update_raffle_at(&grown, 3000), Err(StoreError::CapacityFixed));
    let free = Raffle { ticket_price: Amount { units: 0, decimals: 0 }, ..stored.clone() };
    assert_eq!(store.update_raffle_at(&free, 3000), Err(StoreError::InvalidPrice));
    let running = Raffle { status: RaffleStatus::Running, ..stored.clone() };
    assert_eq!(store.update_raffle_at(&running, 3000), Ok(true));
    assert_eq!(store.update_raffle_at(&stored, 3001), Err(StoreError::StatusRegression));
    assert_eq!(store.get_raffle_by_id(7).unwrap().status, RaffleStatus::Running);
    assert_eq!(store.get_raffle_by_id(7).unwrap().date_updated, 3000);
}

#[test]
fn closed_raffle_cannot_be_reopened() {
    let mut store = store_with_raffle(7, 10);
    assert_eq!(store.conditional_insert(ticket(1, 7, "a", 10), 0, true, 1500), Ok(()));
    let stored = store.get_raffle_by_id(7).unwrap().clone();
    assert_eq!(stored.status, RaffleStatus::Closed);
    for status in [RaffleStatus::Created, RaffleStatus::Running] {
        let reopened = Raffle { status, ..stored.clone() };
        assert_eq!(store.update_raffle_at(&reopened, 3000), Err(StoreError::StatusRegression));
    }
    // not even by taking a ticket out again
    assert!(store.remove_ticket(1));
    assert_eq!(store.get_raffle_by_id(7).unwrap().status, RaffleStatus::Closed);
    assert_eq!(store.get_raffle_by_id(7).unwrap().tickets_sold, 0);
}

#[test]
fn update_raffle_stamps_present_time() {
    let mut store = store_with_raffle(7, 10);
    let mut revision = store.get_raffle_by_id(7).unwrap().clone();
    revision.title = "Renamed".to_string();
    assert_eq!(store.update_raffle(&mut revision), Ok(true));
    assert!(revision.date_updated > 1_704_067_200);
    let stored = store.get_raffle_by_id(7).unwrap();
    assert_eq!(stored.title, "Renamed");
    assert_eq!(stored.date_updated, revision.date_updated);
    assert_eq!(stored.date_created, 1000);
}

#[test]
fn update_ticket_changes_user_name_only() {
    let mut store = store_with_raffle(7, 10);
    assert_eq!(store.conditional_insert(ticket(1, 7, "a", 3), 0, false, 1500), Ok(()));
    let mut change = ticket(1, 9, "other", 9);
    change.username = "bob".to_string();
    assert!(store.update_ticket(&change));
    let expected = Ticket {
        username: "bob".to_string(),
        date_created: 1500,
        date_updated: 1500,
        ..ticket(1, 7, "a", 3)
    };
    assert_eq!(store.get_ticket_by_id(1), Some(&expected));
    assert!(!store.update_ticket(&ticket(2, 7, "a", 3)));
    assert_eq!(store.get_raffle_by_id(7).unwrap().tickets_sold, 3);
}

#[test]
fn remove_ticket_frees_its_tickets() {
    let mut store = store_with_raffle(7, 10);
    assert_eq!(store.conditional_insert(ticket(1, 7, "a", 3), 0, false, 1), Ok(()));
    assert_eq!(store.conditional_insert(ticket(2, 7, "b", 4), 3, false, 2), Ok(()));
    assert!(store.remove_ticket(1));
    assert!(!store.remove_ticket(1));
    assert_eq!(store.get_ticket_by_id(1), None);
    assert_eq!(store.get_raffle_by_id(7).unwrap().tickets_sold, 4);
    assert_eq!(sold(&store, 7), 4);
    // the reference is free again, the capacity too
    assert_eq!(store.conditional_insert(ticket(3, 7, "a", 6), 4, true, 3), Ok(()));
    assert_eq!(store.get_raffle_by_id(7).unwrap().tickets_sold, 10);
}

#[test]
fn remove_raffle_only_without_tickets() {
    let mut store = store_with_raffle(7, 10);
    assert_eq!(store.insert_raffle_at(&mut raffle(10), 8, 1000), Ok(()));
    assert_eq!(store.conditional_insert(ticket(1, 7, "a", 3), 0, false, 1), Ok(()));
    assert_eq!(store.remove_raffle(7), Err(StoreError::RaffleHasTickets));
    assert_eq!(store.remove_raffle(9), Ok(false));
    assert_eq!(store.remove_raffle(8), Ok(true));
    assert_eq!(store.get_raffle_by_id(8), None);
    assert_eq!(store.get_all_raffles().len(), 1);
    assert!(store.remove_ticket(1));
    assert_eq!(store.remove_raffle(7), Ok(true));
    assert!(store.get_all_raffles().is_empty());
}

#[test]
fn identifier_is_spelled_by_twelve_bytes() {
    assert_eq!(identifier_from(&[0; 12]), 0);
    assert_eq!(identifier_from(&[0, 0, 0, 0, 0, 0, 0, 0, 0, 0, 0, 1]), 1);
    assert_eq!(identifier_from(&[0, 0, 0, 0, 0, 0, 0, 0, 0, 0, 1, 0]), 256);
    assert_eq!(identifier_from(&[1, 0, 0, 0, 0, 0, 0, 0, 0, 0, 0, 0]), 1u128 << 88);
    assert_eq!(identifier_from(&[0xff; 12]), (1u128 << 96) - 1);
    assert_eq!(
        identifier_from(&[0x01, 0x02, 0x03, 0x04, 0x05, 0x06, 0x07, 0x08, 0x09, 0x0a, 0x0b, 0x0c]),
        0x0102_0304_0506_0708_090a_0b0c
    );
}

fn read(capacity: u16, sold: u16) -> Option<Raffle> {
    Some(Raffle { id: 7, status: RaffleStatus::Running, tickets_sold: sold, ..raffle(capacity) })
}

#[test]
fn grant_verdict_is_told_from_what_was_read() {
    assert_eq!(grant_verdict(false, false, &read(10, 4), 6, 4), Ok(10));
    assert_eq!(grant_verdict(false, false, &read(10, 4), 1, 4), Ok(5));
    assert_eq!(grant_verdict(false, false, &read(u16::MAX, 0), u16::MAX, 0), Ok(u16::MAX));
    assert_eq!(grant_verdict(true, true, &None, 0, 9), Err(StoreError::DuplicateKey));
    assert_eq!(grant_verdict(false, true, &None, 0, 9), Err(StoreError::NotFound));
    assert_eq!(grant_verdict(false, true, &read(10, 4), 0, 9), Err(StoreError::DuplicateId));
    assert_eq!(grant_verdict(false, false, &read(10, 4), 0, 9), Err(StoreError::EmptyTicket));
    assert_eq!(grant_verdict(false, false, &read(10, 4), 7, 9), Err(StoreError::VersionConflict));
    assert_eq!(grant_verdict(false, false, &read(10, 4), 7, 4), Err(StoreError::CapacityExceeded));
    assert_eq!(
        grant_verdict(false, false, &read(10, 4), u16::MAX, 4),
        Err(StoreError::CapacityExceeded)
    );
    assert_eq!(
        grant_verdict(false, false, &read(10, 12), 1, 12),
        Err(StoreError::CapacityExceeded)
    );
}

#[test]
fn grant_verdict_answers_as_the_store_does() {
    let mut store = store_with_raffle(7, 10);
    assert_eq!(store.conditional_insert(ticket(1, 7, "sig-1", 4), 0, false, 2000), Ok(()));
    let attempts = [
        (ticket(2, 7, "sig-1", 1), 4),
        (ticket(2, 9, "sig-2", 1), 4),
        (ticket(1, 7, "sig-2", 1), 4),
        (ticket(2, 7, "sig-2", 0), 4),
        (ticket(2, 7, "sig-2", 1), 0),
        (ticket(2, 7, "sig-2", 7), 4),
        (ticket(2, 7, "sig-2", 6), 4),
    ];
    for (attempt, expected_sold) in attempts {
        let reference_used = store.get_spl_tx_in_ticket(&attempt.spl_tx_signature).is_some();
        let id_used = store.get_ticket_by_id(attempt.id).is_some();
        let stored = store.get_raffle_by_id(attempt.raffle_id).cloned();
        let told = grant_verdict(reference_used, id_used, &stored, attempt.amount, expected_sold);
        let answered = store.conditional_insert(attempt, expected_sold, false, 3000);
        assert_eq!(told.map(|_| ()), answered);
    }
    assert_eq!(store.get_raffle_by_id(7).unwrap().tickets_sold, 10);
}

#[test]
fn missed_grant_is_told_from_the_raffle_read_afterwards() {
    assert_eq!(refusal_of_missed_grant(&None, 4), StoreError::NotFound);
    assert_eq!(refusal_of_missed_grant(&read(10, 5), 4), StoreError::VersionConflict);
    assert_eq!(refusal_of_missed_grant(&read(10, 3), 4), StoreError::VersionConflict);
    assert_eq!(refusal_of_missed_grant(&read(10, 4), 4), StoreError::CapacityExceeded);
}

#[test]
fn removal_is_answered_from_the_raffle_read() {
    assert_eq!(removal_answer(&None), Ok(false));
    assert_eq!(removal_answer(&read(10, 0)), Ok(true));
    assert_eq!(removal_answer(&read(10, 1)), Err(StoreError::RaffleHasTickets));
    assert_eq!(removal_answer(&read(10, 10)), Err(StoreError::RaffleHasTickets));
}

#[test]
fn revision_is_refused_for_capacity_status_and_price() {
    let stored = read(10, 4).unwrap();
    assert_eq!(revision_refusal(&stored, &stored), None);
    let grown = Raffle { ticket_amount: 11, ..stored.clone() };
    assert_eq!(revision_refusal(&stored, &grown), Some(StoreError::CapacityFixed));
    let back = Raffle { status: RaffleStatus::Created, ..stored.clone() };
    assert_eq!(revision_refusal(&stored, &back), Some(StoreError::StatusRegression));
    let free = Raffle { ticket_price: Amount { units: 0, decimals: 3 }, ..stored.clone() };
    assert_eq!(revision_refusal(&stored, &free), Some(StoreError::InvalidPrice));
    let closed = Raffle { status: RaffleStatus::Closed, title: "Last".to_string(), ..stored.clone() };
    assert_eq!(revision_refusal(&stored, &closed), None);
}
