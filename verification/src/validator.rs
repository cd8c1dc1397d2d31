//! The validation pipeline and the allocation calculator.

use crate::amount::{whole_units, Amount};
use crate::model::{Raffle, RaffleStatus, SolanaTX};
use crate::text::{contains, is_substring};
use vstd::prelude::*;

verus! {

/// The checks a payment has to pass, in the order in which they are made.
#[derive(Clone, Copy, Debug, PartialEq, Eq, Structural)]
pub enum CheckName {
    /// The raffle's token is named by the transaction's token.
    TokenMatch,
    /// The transaction has settled successfully.
    TransactionStatus,
    /// The raffle exists.
    RaffleExists,
    /// The raffle takes purchases.
    RaffleRunning,
    /// The transaction is not older than the raffle.
    TemporalValidity,
    /// The payment went to the receiving address.
    DestinationValidity,
    /// The payment reference has bought no ticket yet.
    SignatureUniqueness,
}

impl CheckName {
    /// The place of the check in the order of evaluation, from 0.
    pub open spec fn position(self) -> int {
        match self {
            CheckName::TokenMatch => 0,
            CheckName::TransactionStatus => 1,
            CheckName::RaffleExists => 2,
            CheckName::RaffleRunning => 3,
            CheckName::TemporalValidity => 4,
            CheckName::DestinationValidity => 5,
            CheckName::SignatureUniqueness => 6,
        }
    }

    /// What a caller is told when the check fails.
    pub open spec fn message_text(self) -> Seq<char> {
        match self {
            CheckName::TokenMatch => "Wrong token send in TX"@,
            CheckName::TransactionStatus => "SPL TX status not valid"@,
            CheckName::RaffleExists => "Raffle does not exist"@,
            CheckName::RaffleRunning => "Raffle is not running"@,
            CheckName::TemporalValidity => "DateTime invalid"@,
            CheckName::DestinationValidity => "Destination invalid"@,
            CheckName::SignatureUniqueness => "SPL Signature already used"@,
        }
    }

    /// What a caller is told when the check fails.
    pub fn message(self) -> (text: String)
        ensures
            text@ == self.message_text(),
    {
        match self {
            CheckName::TokenMatch => String::from_str("Wrong token send in TX"),
            CheckName::TransactionStatus => String::from_str("SPL TX status not valid"),
            CheckName::RaffleExists => String::from_str("Raffle does not exist"),
            CheckName::RaffleRunning => String::from_str("Raffle is not running"),
            CheckName::TemporalValidity => String::from_str("DateTime invalid"),
            CheckName::DestinationValidity => String::from_str("Destination invalid"),
            CheckName::SignatureUniqueness => String::from_str("SPL Signature already used"),
        }
    }
}

/// Which checks are switched on.
#[derive(Clone, Copy, Debug, PartialEq, Eq, Structural)]
pub struct CheckSettings {
    pub token_match: bool,
    pub transaction_status: bool,
    pub raffle_exists: bool,
    pub raffle_running: bool,
    pub temporal_validity: bool,
    pub destination_validity: bool,
    pub signature_uniqueness: bool,
}

impl CheckSettings {
    /// Whether `check` is switched on.
    pub open spec fn enabled(self, check: CheckName) -> bool {
        match check {
            CheckName::TokenMatch => self.token_match,
            CheckName::TransactionStatus => self.transaction_status,
            CheckName::RaffleExists => self.raffle_exists,
            CheckName::RaffleRunning => self.raffle_running,
            CheckName::TemporalValidity => self.temporal_validity,
            CheckName::DestinationValidity => self.destination_validity,
            CheckName::SignatureUniqueness => self.signature_uniqueness,
        }
    }

    /// Every check switched on.
    pub fn all() -> (settings: CheckSettings)
        ensures
            forall|check: CheckName| settings.enabled(check),
    {
        CheckSettings {
            token_match: true,
            transaction_status: true,
            raffle_exists: true,
            raffle_running: true,
            temporal_validity: true,
            destination_validity: true,
            signature_uniqueness: true,
        }
    }

    /// Every check switched off.
    pub fn none() -> (settings: CheckSettings)
        ensures
            forall|check: CheckName| !settings.enabled(check),
    {
        CheckSettings {
            token_match: false,
            transaction_status: false,
            raffle_exists: false,
            raffle_running: false,
            temporal_validity: false,
            destination_validity: false,
            signature_uniqueness: false,
        }
    }

    /// The same settings with `check` switched on or off.
    pub fn with(self, check: CheckName, on: bool) -> (settings: CheckSettings)
        ensures
            settings.enabled(check) == on,
            forall|other: CheckName| other != check ==> settings.enabled(other) == self.enabled(other),
    {
        let mut settings = self;
        match check {
            CheckName::TokenMatch => {
                settings.token_match = on;
            },
            CheckName::TransactionStatus => {
                settings.transaction_status = on;
            },
            CheckName::RaffleExists => {
                settings.raffle_exists = on;
            },
            CheckName::RaffleRunning => {
                settings.raffle_running = on;
            },
            CheckName::TemporalValidity => {
                settings.temporal_validity = on;
            },
            CheckName::DestinationValidity => {
                settings.destination_validity = on;
            },
            CheckName::SignatureUniqueness => {
                settings.signature_uniqueness = on;
            },
        }
        settings
    }

    /// Whether `check` is switched on.
    pub fn is_enabled(&self, check: CheckName) -> (on: bool)
        ensures
            on == self.enabled(check),
    {
        match check {
            CheckName::TokenMatch => self.token_match,
            CheckName::TransactionStatus => self.transaction_status,
            CheckName::RaffleExists => self.raffle_exists,
            CheckName::RaffleRunning => self.raffle_running,
            CheckName::TemporalValidity => self.temporal_validity,
            CheckName::DestinationValidity => self.destination_validity,
            CheckName::SignatureUniqueness => self.signature_uniqueness,
        }
    }
}

/// Which raffles count as taking purchases.
#[derive(Clone, Copy, Debug, PartialEq, Eq, Structural)]
pub enum RunningMode {
    /// Only a raffle whose status is running.
    Strict,
    /// Every raffle that is not closed.
    NotClosed,
}

impl RunningMode {
    /// Whether a raffle in `status` takes purchases under this mode.
    pub open spec fn accepts(self, status: RaffleStatus) -> bool {
        match self {
            RunningMode::Strict => status == RaffleStatus::Running,
            RunningMode::NotClosed => status != RaffleStatus::Closed,
        }
    }

    /// The name of the mode.
    pub open spec fn name_text(self) -> Seq<char> {
        match self {
            RunningMode::Strict => "strict"@,
            RunningMode::NotClosed => "not-closed"@,
        }
    }

    /// The mode that `text` names, `strict` or `not-closed`, if it names
    /// one.
    pub fn named(text: &String) -> (mode: Option<RunningMode>)
        ensures
            match mode {
                Some(mode) => text@ == mode.name_text(),
                None => forall|mode: RunningMode| text@ != mode.name_text(),
            },
    {
        if *text == String::from_str("strict") {
            Some(RunningMode::Strict)
        } else if *text == String::from_str("not-closed") {
            Some(RunningMode::NotClosed)
        } else {
            None
        }
    }

    /// Whether a raffle in `status` takes purchases under this mode.
    pub fn takes_purchases(self, status: RaffleStatus) -> (open: bool)
        ensures
            open == self.accepts(status),
    {
        match self {
            RunningMode::Strict => match status {
                RaffleStatus::Running => true,
                _ => false,
            },
            RunningMode::NotClosed => match status {
                RaffleStatus::Closed => false,
                _ => true,
            },
        }
    }
}

/// The text by which a transaction's status shows that it has settled.
pub open spec fn settled_mark() -> Seq<char> {
    "Success"@
}

/// The ordered checks, with what they are configured to accept.
#[derive(Debug)]
pub struct ValidationPipeline {
    pub settings: CheckSettings,
    /// The address that payments have to go to.
    pub wallet: String,
    pub running_mode: RunningMode,
}

impl ValidationPipeline {
    /// Whether the inputs meet `check`, switched on or not. A check that
    /// reads the raffle is not met where there is no raffle.
    pub open spec fn satisfied(
        self,
        check: CheckName,
        tx: SolanaTX,
        raffle: Option<Raffle>,
        signature_used: bool,
    ) -> bool {
        match check {
            CheckName::TokenMatch => raffle is Some && is_substring(
                raffle->0.ticket_token_name@,
                tx.token_symbol@,
            ),
            CheckName::TransactionStatus => is_substring(settled_mark(), tx.status@),
            CheckName::RaffleExists => raffle is Some,
            CheckName::RaffleRunning => raffle is Some && self.running_mode.accepts(
                raffle->0.status,
            ),
            CheckName::TemporalValidity => raffle is Some && tx.block_time
                >= raffle->0.date_created,
            CheckName::DestinationValidity => is_substring(self.wallet@, tx.destination_owner@),
            CheckName::SignatureUniqueness => !signature_used,
        }
    }

    /// Whether `check` is switched on and not met. A check that is switched
    /// off never fails.
    pub open spec fn fails(
        self,
        check: CheckName,
        tx: SolanaTX,
        raffle: Option<Raffle>,
        signature_used: bool,
    ) -> bool {
        self.settings.enabled(check) && !self.satisfied(check, tx, raffle, signature_used)
    }

    /// Whether no check fails.
    pub open spec fn passes(self, tx: SolanaTX, raffle: Option<Raffle>, signature_used: bool) -> bool {
        forall|check: CheckName| !self.fails(check, tx, raffle, signature_used)
    }

    /// Whether `check` fails and no check before it does.
    pub open spec fn fails_first(
        self,
        check: CheckName,
        tx: SolanaTX,
        raffle: Option<Raffle>,
        signature_used: bool,
    ) -> bool {
        &&& self.fails(check, tx, raffle, signature_used)
        &&& forall|earlier: CheckName|
            earlier.position() < check.position() ==> !self.fails(
                earlier,
                tx,
                raffle,
                signature_used,
            )
    }

    /// A pipeline with the given switches, receiving address and reading of
    /// "running".
    pub fn new(settings: CheckSettings, wallet: String, running_mode: RunningMode) -> (pipeline:
        ValidationPipeline)
        ensures
            pipeline.settings == settings,
            pipeline.wallet == wallet,
            pipeline.running_mode == running_mode,
    {
        ValidationPipeline { settings, wallet, running_mode }
    }

    /// The verdict of the pipeline: the first check in the order of
    /// evaluation that fails, or `Ok` where none does.
    pub open spec fn verdict_of(self, tx: SolanaTX, raffle: Option<Raffle>, signature_used: bool) -> Result<
        (),
        CheckName,
    > {
        if self.fails(CheckName::TokenMatch, tx, raffle, signature_used) {
            Err(CheckName::TokenMatch)
        } else if self.fails(CheckName::TransactionStatus, tx, raffle, signature_used) {
            Err(CheckName::TransactionStatus)
        } else if self.fails(CheckName::RaffleExists, tx, raffle, signature_used) {
            Err(CheckName::RaffleExists)
        } else if self.fails(CheckName::RaffleRunning, tx, raffle, signature_used) {
            Err(CheckName::RaffleRunning)
        } else if self.fails(CheckName::TemporalValidity, tx, raffle, signature_used) {
            Err(CheckName::TemporalValidity)
        } else if self.fails(CheckName::DestinationValidity, tx, raffle, signature_used) {
            Err(CheckName::DestinationValidity)
        } else if self.fails(CheckName::SignatureUniqueness, tx, raffle, signature_used) {
            Err(CheckName::SignatureUniqueness)
        } else {
            Ok(())
        }
    }

    /// The verdict is `Ok` exactly when no check that is switched on fails,
    /// and otherwise names the check that fails first.
    pub proof fn lemma_verdict_names_first_failure(
        self,
        tx: SolanaTX,
        raffle: Option<Raffle>,
        signature_used: bool,
    )
        ensures
            self.verdict_of(tx, raffle, signature_used) is Ok <==> self.passes(
                tx,
                raffle,
                signature_used,
            ),
            forall|check: CheckName|
                self.verdict_of(tx, raffle, signature_used) == Err::<(), CheckName>(check)
                    <==> self.fails_first(check, tx, raffle, signature_used),
    {
        let verdict = self.verdict_of(tx, raffle, signature_used);
        assert forall|check: CheckName|
            verdict == Err::<(), CheckName>(check) <==> self.fails_first(
                check,
                tx,
                raffle,
                signature_used,
            ) by {
            if self.fails_first(check, tx, raffle, signature_used) {
                if verdict is Err {
                    let named = verdict->Err_0;
                    assert(self.fails(named, tx, raffle, signature_used));
                    assert(!(named.position() < check.position()));
                    assert(!(check.position() < named.position()));
                }
            }
        }
        if verdict is Ok {
            assert forall|check: CheckName| !self.fails(check, tx, raffle, signature_used) by {}
        } else {
            assert(self.fails(verdict->Err_0, tx, raffle, signature_used));
        }
    }

    /// Runs the checks in order. The answer is `Ok` exactly when no check
    /// that is switched on fails, and otherwise names the first that does.
    pub fn validate(&self, tx: &SolanaTX, raffle: &Option<Raffle>, signature_used: bool) -> (verdict:
        Result<(), CheckName>)
        ensures
            verdict == self.verdict_of(*tx, *raffle, signature_used),
            verdict is Ok <==> self.passes(*tx, *raffle, signature_used),
            verdict matches Err(check) ==> self.fails_first(check, *tx, *raffle, signature_used),
    {
        proof {
            self.lemma_verdict_names_first_failure(*tx, *raffle, signature_used);
        }
        if self.settings.token_match {
            let met = match raffle {
                Some(r) => contains(tx.token_symbol.as_str(), r.ticket_token_name.as_str()),
                None => false,
            };
            if !met {
                assert(self.fails(CheckName::TokenMatch, *tx, *raffle, signature_used));
                return Err(CheckName::TokenMatch);
            }
        }
        assert(!self.fails(CheckName::TokenMatch, *tx, *raffle, signature_used));
        if self.settings.transaction_status {
            if !contains(tx.status.as_str(), "Success") {
                assert(self.fails(CheckName::TransactionStatus, *tx, *raffle, signature_used));
                return Err(CheckName::TransactionStatus);
            }
        }
        assert(!self.fails(CheckName::TransactionStatus, *tx, *raffle, signature_used));
        if self.settings.raffle_exists {
            if raffle.is_none() {
                assert(self.fails(CheckName::RaffleExists, *tx, *raffle, signature_used));
                return Err(CheckName::RaffleExists);
            }
        }
        assert(!self.fails(CheckName::RaffleExists, *tx, *raffle, signature_used));
        if self.settings.raffle_running {
            let met = match raffle {
                Some(r) => self.running_mode.takes_purchases(r.status),
                None => false,
            };
            if !met {
                assert(self.fails(CheckName::RaffleRunning, *tx, *raffle, signature_used));
                return Err(CheckName::RaffleRunning);
            }
        }
        assert(!self.fails(CheckName::RaffleRunning, *tx, *raffle, signature_used));
        if self.settings.temporal_validity {
            let met = match raffle {
                Some(r) => tx.block_time >= r.date_created,
                None => false,
            };
            if !met {
                assert(self.fails(CheckName::TemporalValidity, *tx, *raffle, signature_used));
                return Err(CheckName::TemporalValidity);
            }
        }
        assert(!self.fails(CheckName::TemporalValidity, *tx, *raffle, signature_used));
        if self.settings.destination_validity {
            if !contains(tx.destination_owner.as_str(), self.wallet.as_str()) {
                assert(self.fails(CheckName::DestinationValidity, *tx, *raffle, signature_used));
                return Err(CheckName::DestinationValidity);
            }
        }
        assert(!self.fails(CheckName::DestinationValidity, *tx, *raffle, signature_used));
        if self.settings.signature_uniqueness {
            if signature_used {
                assert(self.fails(CheckName::SignatureUniqueness, *tx, *raffle, signature_used));
                return Err(CheckName::SignatureUniqueness);
            }
        }
        assert(!self.fails(CheckName::SignatureUniqueness, *tx, *raffle, signature_used));
        Ok(())
    }
}

/// How a payment was turned into tickets.
#[derive(Clone, Copy, Debug, PartialEq, Eq, Structural)]
pub enum AllocationDecision {
    /// Every ticket paid for is granted.
    Full,
    /// Fewer tickets were left than were paid for: all that were left are
    /// granted.
    Partial,
    /// No ticket was left.
    SoldOut,
}

/// What the calculator grants for one payment.
#[derive(Clone, Copy, Debug, PartialEq, Eq, Structural)]
pub struct Allocation {
    /// How many tickets are granted.
    pub tickets: u16,
    pub decision: AllocationDecision,
    /// Whether granting them uses up the raffle, which then closes.
    pub should_close: bool,
}

/// The allocation for a payment: the whole tickets that the payment buys at
/// `price`, as far as `capacity` less `sold` allows. What is paid beyond a
/// whole ticket is forfeited.
pub open spec fn allocation_of(payment: Amount, price: Amount, capacity: u16, sold: u64) -> Allocation {
    let requested = whole_units(payment, price);
    let remaining = capacity - sold;
    if remaining <= 0 {
        Allocation { tickets: 0, decision: AllocationDecision::SoldOut, should_close: false }
    } else if requested <= remaining {
        Allocation {
            tickets: (if requested < 0 {
                0
            } else {
                requested
            }) as u16,
            decision: AllocationDecision::Full,
            should_close: requested == remaining,
        }
    } else {
        Allocation {
            tickets: remaining as u16,
            decision: AllocationDecision::Partial,
            should_close: true,
        }
    }
}

/// Computes the allocation for a payment against a raffle of `capacity`
/// tickets at `price` each, of which `sold` are gone.
pub fn calculate_ticket_amount(payment: &Amount, price: &Amount, capacity: u16, sold: u64) -> (granted:
    Allocation)
    requires
        price.units > 0,
    ensures
        granted == allocation_of(*payment, *price, capacity, sold),
{
    if sold >= capacity as u64 {
        return Allocation { tickets: 0, decision: AllocationDecision::SoldOut, should_close: false };
    }
    let remaining: u16 = capacity - (sold as u16);
    let (tickets, cut) = payment.units_of(price, remaining);
    if cut {
        Allocation { tickets: remaining, decision: AllocationDecision::Partial, should_close: true }
    } else {
        Allocation {
            tickets,
            decision: AllocationDecision::Full,
            should_close: tickets == remaining,
        }
    }
}

} // verus!
