//! What the store takes from outside: the time of day and fresh identifiers.

use vstd::prelude::*;

verus! {

/// The number that the bytes spell, the first byte weighing most.
pub open spec fn be_value(bytes: Seq<u8>) -> nat
    decreases bytes.len(),
{
    if bytes.len() == 0 {
        0
    } else {
        be_value(bytes.drop_last()) * 256 + bytes.last() as nat
    }
}

/// `256^n`.
pub open spec fn span(n: nat) -> nat
    decreases n,
{
    if n == 0 {
        1
    } else {
        256 * span((n - 1) as nat)
    }
}

/// Trusted: `chrono::Utc::now().timestamp()`, the seconds since the Unix
/// epoch by the system clock. Nothing is claimed of the number: the clock
/// may show any time. On a machine whose clock stands before 1970 the call
/// panics.
#[verifier::external_body]
pub(crate) fn unix_time_now() -> i64 {
    chrono::Utc::now().timestamp()
}

/// Trusted: `ObjectId::new().bytes()` of the MongoDB driver's BSON library,
/// the twelve bytes of a newly made object identifier. Nothing is claimed of
/// the bytes: they come from the clock, the process and a counter. On a
/// machine whose clock stands before 1970 or after 2105 the call panics.
#[verifier::external_body]
pub(crate) fn fresh_object_id() -> [u8; 12] {
    mongodb::bson::oid::ObjectId::new().bytes()
}

/// The identifier that the twelve bytes of an object identifier spell.
pub fn identifier_from(bytes: &[u8; 12]) -> (id: u128)
    ensures
        id == be_value(bytes@),
        id < span(12),
{
    let mut id: u128 = 0;
    let mut done: usize = 0;
    proof {
        reveal_with_fuel(span, 13);
        assert(span(12) == 0x1_0000_0000_0000_0000_0000_0000);
        assert(bytes@.take(0) =~= Seq::<u8>::empty());
    }
    while done < 12
        invariant
            done <= 12,
            bytes@.len() == 12,
            id == be_value(bytes@.take(done as int)),
            id < span(done as nat),
            span(12) == 0x1_0000_0000_0000_0000_0000_0000,
        decreases 12 - done,
    {
        proof {
            let next = bytes@.take(done + 1);
            assert(next.drop_last() =~= bytes@.take(done as int));
            assert(next.last() == bytes@[done as int]);
            lemma_span_grows((done + 1) as nat, 12);
        }
        id = id * 256 + bytes[done] as u128;
        done = done + 1;
    }
    proof {
        assert(bytes@.take(12) =~= bytes@);
    }
    id
}

/// `256^a <= 256^b` for `a <= b`.
pub proof fn lemma_span_grows(a: nat, b: nat)
    requires
        a <= b,
    ensures
        span(a) <= span(b),
        span(a) >= 1,
    decreases b,
{
    if a < b {
        lemma_span_grows(a, (b - 1) as nat);
    } else if a > 0 {
        lemma_span_grows((a - 1) as nat, (a - 1) as nat);
    }
}

} // verus!
