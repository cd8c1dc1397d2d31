use raffle_engine::amount::Amount;
use raffle_engine::validator::{calculate_ticket_amount, Allocation, AllocationDecision};

fn units(n: i64) -> Amount {
    Amount { units: n, decimals: 0 }
}

#[test]
fn full_allocation_leaves_raffle_open() {
    let granted = calculate_ticket_amount(&units(50), &units(10), 100, 0);
    assert_eq!(
        granted,
        Allocation { tickets: 5, decision: AllocationDecision::Full, should_close: false }
    );
}

#[test]
fn partial_allocation_is_capped_and_closes() {
    let granted = calculate_ticket_amount(&units(50), &units(10), 3, 0);
    assert_eq!(
        granted,
        Allocation { tickets: 3, decision: AllocationDecision::Partial, should_close: true }
    );
}

#[test]
fn sold_out_raffle_grants_nothing() {
    let granted = calculate_ticket_amount(&units(50), &units(10), 5, 5);
    assert_eq!(
        granted,
        Allocation { tickets: 0, decision: AllocationDecision::SoldOut, should_close: false }
    );
}

#[test]
fn oversold_count_is_sold_out() {
    let granted = calculate_ticket_amount(&units(50), &units(10), 5, 9);
    assert_eq!(granted.tickets, 0);
    assert_eq!(granted.decision, AllocationDecision::SoldOut);
    let granted = calculate_ticket_amount(&units(50), &units(10), 5, u64::MAX);
    assert_eq!(granted.decision, AllocationDecision::SoldOut);
}

#[test]
fn exact_exhaustion_is_full_and_closes() {
    let granted = calculate_ticket_amount(&units(50), &units(10), 8, 3);
    assert_eq!(
        granted,
        Allocation { tickets: 5, decision: AllocationDecision::Full, should_close: true }
    );
}

#[test]
fn remainder_of_payment_is_forfeited() {
    let granted = calculate_ticket_amount(&units(59), &units(10), 100, 0);
    assert_eq!(granted.tickets, 5);
    let granted = calculate_ticket_amount(&units(60), &units(10), 100, 0);
    assert_eq!(granted.tickets, 6);
}

#[test]
fn payment_below_price_grants_zero_tickets() {
    let granted = calculate_ticket_amount(&units(9), &units(10), 100, 0);
    assert_eq!(
        granted,
        Allocation { tickets: 0, decision: AllocationDecision::Full, should_close: false }
    );
}

#[test]
fn zero_and_negative_payments_grant_nothing() {
    assert_eq!(calculate_ticket_amount(&units(0), &units(10), 100, 0).tickets, 0);
    let granted = calculate_ticket_amount(&units(-50), &units(10), 100, 0);
    assert_eq!(
        granted,
        Allocation { tickets: 0, decision: AllocationDecision::Full, should_close: false }
    );
    let granted = calculate_ticket_amount(&units(i64::MIN), &units(1), 100, 0);
    assert_eq!(granted.tickets, 0);
    assert!(!granted.should_close);
}

#[test]
fn decimals_of_payment_and_price_are_honoured() {
    // 5.000000 paid at 0.5 each
    let paid = Amount { units: 5_000_000, decimals: 6 };
    let price = Amount { units: 5, decimals: 1 };
    assert_eq!(calculate_ticket_amount(&paid, &price, 100, 0).tickets, 10);
    // 12.34 paid at 1.234 each: exactly ten
    let paid = Amount { units: 1234, decimals: 2 };
    let price = Amount { units: 1234, decimals: 3 };
    assert_eq!(calculate_ticket_amount(&paid, &price, 100, 0).tickets, 10);
    // 12.33 paid at 1.234 each: one unit short of ten
    let paid = Amount { units: 1233, decimals: 2 };
    assert_eq!(calculate_ticket_amount(&paid, &price, 100, 0).tickets, 9);
    // 0.3 paid at 0.1 each: three, with no rounding drift
    let paid = Amount { units: 3, decimals: 1 };
    let price = Amount { units: 1, decimals: 1 };
    assert_eq!(calculate_ticket_amount(&paid, &price, 100, 0).tickets, 3);
}

#[test]
fn units_of_reports_quotient_and_cut() {
    let price = units(10);
    assert_eq!(units(50).units_of(&price, 100), (5, false));
    assert_eq!(units(50).units_of(&price, 5), (5, false));
    assert_eq!(units(50).units_of(&price, 4), (4, true));
    assert_eq!(units(50).units_of(&price, 0), (0, true));
    assert_eq!(units(5).units_of(&price, 0), (0, false));
    assert_eq!(units(-1).units_of(&price, 7), (0, false));
}

#[test]
fn huge_scales_settle_without_overflow() {
    // a price with far more decimals than the payment: the payment is worth a lot
    let paid = units(1);
    let tiny = Amount { units: 1, decimals: u32::MAX };
    assert_eq!(paid.units_of(&tiny, u16::MAX), (u16::MAX, true));
    let granted = calculate_ticket_amount(&paid, &tiny, 7, 0);
    assert_eq!(
        granted,
        Allocation { tickets: 7, decision: AllocationDecision::Partial, should_close: true }
    );
    // a payment with far more decimals than the price: the payment is worth nothing
    let dust = Amount { units: i64::MAX, decimals: u32::MAX };
    assert_eq!(dust.units_of(&units(1), u16::MAX), (0, false));
    // the largest operands at equal scale
    let most = Amount { units: i64::MAX, decimals: 3 };
    let one = Amount { units: 1, decimals: 3 };
    assert_eq!(most.units_of(&one, u16::MAX), (u16::MAX, true));
    assert_eq!(most.units_of(&most, u16::MAX), (1, false));
    // scales that differ by a little more than the operands are long
    let paid = Amount { units: 1, decimals: 0 };
    let price = Amount { units: i64::MAX, decimals: 19 };
    // 10^19 / (2^63 - 1) = 1.08...
    assert_eq!(paid.units_of(&price, 100), (1, false));
    let price = Amount { units: i64::MAX, decimals: 20 };
    assert_eq!(paid.units_of(&price, 100), (10, false));
    let price = Amount { units: i64::MAX, decimals: 24 };
    // 10^24 / (2^63 - 1) = 108420.2...
    assert_eq!(paid.units_of(&price, u16::MAX), (u16::MAX, true));
    let price = Amount { units: i64::MAX, decimals: 23 };
    // 10^23 / (2^63 - 1) = 10842.02...
    assert_eq!(paid.units_of(&price, u16::MAX), (10842, false));
}

#[test]
fn whole_amount_has_no_decimals() {
    assert_eq!(Amount::whole(42), Amount { units: 42, decimals: 0 });
    assert!(Amount::whole(1).is_positive());
    assert!(!Amount::whole(0).is_positive());
    assert!(!Amount::whole(-1).is_positive());
}
