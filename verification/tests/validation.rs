use raffle_engine::amount::Amount;
use raffle_engine::model::{Raffle, RaffleStatus, SolanaTX};
use raffle_engine::validator::{CheckName, CheckSettings, RunningMode, ValidationPipeline};

const WALLET: &str = "9xQeWvG816bUx9EPjHmaT23yvVM2ZWbrrpZb9PusVFin";

fn running_raffle() -> Raffle {
    Raffle {
        id: 1,
        title: "Spring raffle".to_string(),
        description: "One prize".to_string(),
        status: RaffleStatus::Running,
        ticket_amount: 100,
        ticket_price: Amount { units: 10, decimals: 0 },
        ticket_token_name: "USDC".to_string(),
        rule: String::new(),
        date_created: 1_650_000_000,
        date_updated: 1_650_000_000,
        tickets_sold: 0,
    }
}

fn good_transfer() -> SolanaTX {
    SolanaTX {
        tx_signature: "sig-1".to_string(),
        block_time: 1_650_000_100,
        source_owner: "payer".to_string(),
        destination_owner: WALLET.to_string(),
        token_address: "EPjFWdd5AufqSSqeM2qN1xzybapC8G4wEGGkZwyTDt1v".to_string(),
        token_symbol: "USDC".to_string(),
        amount: Amount { units: 50_000_000, decimals: 6 },
        status: "Success".to_string(),
    }
}

fn strict(settings: CheckSettings) -> ValidationPipeline {
    ValidationPipeline::new(settings, WALLET.to_string(), RunningMode::Strict)
}

#[test]
fn good_payment_passes_every_check() {
    let pipeline = strict(CheckSettings::all());
    assert_eq!(pipeline.validate(&good_transfer(), &Some(running_raffle()), false), Ok(()));
}

#[test]
fn token_check_wants_raffle_token_inside_transaction_token() {
    let pipeline = strict(CheckSettings::all());
    let mut tx = good_transfer();
    tx.token_symbol = "SOL".to_string();
    assert_eq!(
        pipeline.validate(&tx, &Some(running_raffle()), false),
        Err(CheckName::TokenMatch)
    );
    // the raffle's token may be a part of the transaction's
    tx.token_symbol = "wUSDC-v2".to_string();
    assert_eq!(pipeline.validate(&tx, &Some(running_raffle()), false), Ok(()));
    // but not the other way round
    tx.token_symbol = "USD".to_string();
    assert_eq!(
        pipeline.validate(&tx, &Some(running_raffle()), false),
        Err(CheckName::TokenMatch)
    );
}

#[test]
fn status_check_wants_settled_transaction() {
    let pipeline = strict(CheckSettings::all());
    let mut tx = good_transfer();
    tx.status = "Fail".to_string();
    assert_eq!(
        pipeline.validate(&tx, &Some(running_raffle()), false),
        Err(CheckName::TransactionStatus)
    );
    tx.status = "success".to_string();
    assert_eq!(
        pipeline.validate(&tx, &Some(running_raffle()), false),
        Err(CheckName::TransactionStatus)
    );
    tx.status = "Status: Success (finalized)".to_string();
    assert_eq!(pipeline.validate(&tx, &Some(running_raffle()), false), Ok(()));
}

#[test]
fn missing_raffle_fails_first_enabled_check_that_needs_it() {
    let tx = good_transfer();
    assert_eq!(strict(CheckSettings::all()).validate(&tx, &None, false), Err(CheckName::TokenMatch));
    let settings = CheckSettings::all().with(CheckName::TokenMatch, false);
    assert_eq!(strict(settings).validate(&tx, &None, false), Err(CheckName::RaffleExists));
    let settings = settings.with(CheckName::RaffleExists, false);
    assert_eq!(strict(settings).validate(&tx, &None, false), Err(CheckName::RaffleRunning));
    let settings = settings.with(CheckName::RaffleRunning, false);
    assert_eq!(strict(settings).validate(&tx, &None, false), Err(CheckName::TemporalValidity));
    let settings = settings.with(CheckName::TemporalValidity, false);
    assert_eq!(strict(settings).validate(&tx, &None, false), Ok(()));
}

#[test]
fn running_check_in_strict_mode_wants_running() {
    let pipeline = strict(CheckSettings::all());
    let mut raffle = running_raffle();
    raffle.status = RaffleStatus::Created;
    assert_eq!(
        pipeline.validate(&good_transfer(), &Some(raffle), false),
        Err(CheckName::RaffleRunning)
    );
    let mut raffle = running_raffle();
    raffle.status = RaffleStatus::Closed;
    assert_eq!(
        pipeline.validate(&good_transfer(), &Some(raffle), false),
        Err(CheckName::RaffleRunning)
    );
}

#[test]
fn running_check_in_lenient_mode_takes_all_but_closed() {
    let pipeline =
        ValidationPipeline::new(CheckSettings::all(), WALLET.to_string(), RunningMode::NotClosed);
    let mut raffle = running_raffle();
    raffle.status = RaffleStatus::Created;
    assert_eq!(pipeline.validate(&good_transfer(), &Some(raffle), false), Ok(()));
    let mut raffle = running_raffle();
    raffle.status = RaffleStatus::Closed;
    assert_eq!(
        pipeline.validate(&good_transfer(), &Some(raffle), false),
        Err(CheckName::RaffleRunning)
    );
    assert!(RunningMode::NotClosed.takes_purchases(RaffleStatus::Running));
    assert!(!RunningMode::Strict.takes_purchases(RaffleStatus::Created));
}

#[test]
fn temporal_check_takes_the_very_second_of_creation() {
    let pipeline = strict(CheckSettings::all());
    let mut tx = good_transfer();
    tx.block_time = 1_650_000_000;
    assert_eq!(pipeline.validate(&tx, &Some(running_raffle()), false), Ok(()));
    tx.block_time = 1_649_999_999;
    assert_eq!(
        pipeline.validate(&tx, &Some(running_raffle()), false),
        Err(CheckName::TemporalValidity)
    );
}

#[test]
fn destination_check_toggle() {
    let mut tx = good_transfer();
    tx.destination_owner = "someone-else".to_string();
    let raffle = Some(running_raffle());
    let off = strict(CheckSettings::all().with(CheckName::DestinationValidity, false));
    assert_eq!(off.validate(&tx, &raffle, false), Ok(()));
    let on = strict(CheckSettings::all());
    let verdict = on.validate(&tx, &raffle, false);
    assert_eq!(verdict, Err(CheckName::DestinationValidity));
    assert_eq!(verdict.unwrap_err().message(), "Destination invalid");
}

#[test]
fn destination_check_takes_address_inside_longer_text() {
    let pipeline = strict(CheckSettings::all());
    let mut tx = good_transfer();
    tx.destination_owner = format!("owner:{}", WALLET);
    assert_eq!(pipeline.validate(&tx, &Some(running_raffle()), false), Ok(()));
    tx.destination_owner = WALLET[1..].to_string();
    assert_eq!(
        pipeline.validate(&tx, &Some(running_raffle()), false),
        Err(CheckName::DestinationValidity)
    );
}

#[test]
fn used_signature_is_rejected_last() {
    let pipeline = strict(CheckSettings::all());
    assert_eq!(
        pipeline.validate(&good_transfer(), &Some(running_raffle()), true),
        Err(CheckName::SignatureUniqueness)
    );
    let mut tx = good_transfer();
    tx.destination_owner = "someone-else".to_string();
    assert_eq!(
        pipeline.validate(&tx, &Some(running_raffle()), true),
        Err(CheckName::DestinationValidity)
    );
}

#[test]
fn first_failing_check_is_named() {
    let pipeline = strict(CheckSettings::all());
    let mut tx = good_transfer();
    tx.token_symbol = "SOL".to_string();
    tx.status = "Fail".to_string();
    tx.block_time = 0;
    tx.destination_owner = String::new();
    let mut raffle = running_raffle();
    raffle.status = RaffleStatus::Closed;
    let raffle = Some(raffle);
    assert_eq!(pipeline.validate(&tx, &raffle, true), Err(CheckName::TokenMatch));
    tx.token_symbol = "USDC".to_string();
    assert_eq!(pipeline.validate(&tx, &raffle, true), Err(CheckName::TransactionStatus));
    tx.status = "Success".to_string();
    assert_eq!(pipeline.validate(&tx, &raffle, true), Err(CheckName::RaffleRunning));
}

#[test]
fn disabled_checks_never_fail() {
    let pipeline = strict(CheckSettings::none());
    let tx = SolanaTX {
        tx_signature: String::new(),
        block_time: i64::MIN,
        source_owner: String::new(),
        destination_owner: String::new(),
        token_address: String::new(),
        token_symbol: String::new(),
        amount: Amount { units: 0, decimals: 0 },
        status: String::new(),
    };
    assert_eq!(pipeline.validate(&tx, &None, true), Ok(()));
    let mut raffle = running_raffle();
    raffle.status = RaffleStatus::Closed;
    assert_eq!(pipeline.validate(&tx, &Some(raffle), true), Ok(()));
}

#[test]
fn closed_raffle_is_rejected_at_running_check() {
    let mut raffle = running_raffle();
    raffle.status = RaffleStatus::Closed;
    raffle.tickets_sold = 100;
    for mode in [RunningMode::Strict, RunningMode::NotClosed] {
        let pipeline = ValidationPipeline::new(CheckSettings::all(), WALLET.to_string(), mode);
        let verdict = pipeline.validate(&good_transfer(), &Some(raffle.clone()), false);
        assert_eq!(verdict, Err(CheckName::RaffleRunning));
        assert_eq!(verdict.unwrap_err().message(), "Raffle is not running");
    }
}

#[test]
fn settings_switch_one_check_at_a_time() {
    let checks = [
        CheckName::TokenMatch,
        CheckName::TransactionStatus,
        CheckName::RaffleExists,
        CheckName::RaffleRunning,
        CheckName::TemporalValidity,
        CheckName::DestinationValidity,
        CheckName::SignatureUniqueness,
    ];
    for check in checks {
        assert!(CheckSettings::all().is_enabled(check));
        assert!(!CheckSettings::none().is_enabled(check));
        let one = CheckSettings::none().with(check, true);
        for other in checks {
            assert_eq!(one.is_enabled(other), other == check);
        }
    }
}

#[test]
fn every_check_has_its_message() {
    assert_eq!(CheckName::TokenMatch.message(), "Wrong token send in TX");
    assert_eq!(CheckName::TransactionStatus.message(), "SPL TX status not valid");
    assert_eq!(CheckName::RaffleExists.message(), "Raffle does not exist");
    assert_eq!(CheckName::RaffleRunning.message(), "Raffle is not running");
    assert_eq!(CheckName::TemporalValidity.message(), "DateTime invalid");
    assert_eq!(CheckName::DestinationValidity.message(), "Destination invalid");
    assert_eq!(CheckName::SignatureUniqueness.message(), "SPL Signature already used");
}

#[test]
fn status_names_round_trip() {
    for status in [RaffleStatus::Created, RaffleStatus::Running, RaffleStatus::Closed] {
        assert_eq!(RaffleStatus::named(&status.name()), Some(status));
    }
    assert_eq!(RaffleStatus::Running.name(), "running");
    assert_eq!(RaffleStatus::named(&"Running".to_string()), None);
    assert_eq!(RaffleStatus::named(&String::new()), None);
}

#[test]
fn status_only_moves_forward() {
    assert!(RaffleStatus::Running.may_follow(RaffleStatus::Created));
    assert!(RaffleStatus::Closed.may_follow(RaffleStatus::Created));
    assert!(RaffleStatus::Closed.may_follow(RaffleStatus::Running));
    assert!(RaffleStatus::Closed.may_follow(RaffleStatus::Closed));
    assert!(RaffleStatus::Created.may_follow(RaffleStatus::Created));
    assert!(!RaffleStatus::Created.may_follow(RaffleStatus::Running));
    assert!(!RaffleStatus::Running.may_follow(RaffleStatus::Closed));
    assert!(!RaffleStatus::Created.may_follow(RaffleStatus::Closed));
}

#[test]
fn running_modes_are_named() {
    assert_eq!(RunningMode::named(&"strict".to_string()), Some(RunningMode::Strict));
    assert_eq!(RunningMode::named(&"not-closed".to_string()), Some(RunningMode::NotClosed));
    for text in ["", "Strict", "not closed", "lenient", "strict "] {
        assert_eq!(RunningMode::named(&text.to_string()), None, "for {:?}", text);
    }
}
