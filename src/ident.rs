use std::collections::hash_map::DefaultHasher;
use std::hash::{Hash, Hasher};
use std::time::SystemTime;
use vstd::prelude::*;

verus! {

/// std's `SystemTime`, carried through as an opaque clock reading.
#[verifier::external_type_specification]
#[verifier::external_body]
pub struct ExSystemTime(SystemTime);

/// Relies on std's `SystemTime::now`: a reading of the system clock, of which nothing is promised.
pub assume_specification[ SystemTime::now ]() -> SystemTime;

/// The character of a decimal digit.
pub open spec fn digit_char(d: nat) -> char {
    if d == 0 { '0' }
    else if d == 1 { '1' }
    else if d == 2 { '2' }
    else if d == 3 { '3' }
    else if d == 4 { '4' }
    else if d == 5 { '5' }
    else if d == 6 { '6' }
    else if d == 7 { '7' }
    else if d == 8 { '8' }
    else { '9' }
}

/// The decimal representation of a natural number, without leading zeros.
pub open spec fn decimal_of(n: nat) -> Seq<char>
    decreases n,
{
    if n < 10 {
        seq![digit_char(n)]
    } else {
        decimal_of(n / 10).push(digit_char(n % 10))
    }
}

/// Relies on `<SystemTime as Hash>::hash`: feeds the clock reading to the hasher.
/// What it writes is not promised.
#[verifier::external_body]
fn feed_time(t: &SystemTime, hasher: &mut DefaultHasher) {
    t.hash(hasher)
}

/// Relies on `<u64 as ToString>::to_string`: the decimal digits of the number.
#[verifier::external_body]
fn decimal(n: u64) -> (r: String)
    ensures
        r@ == decimal_of(n as nat),
{
    n.to_string()
}

/// A new identifier: the decimal form of a hash of the current time.
/// Two calls may give the same identifier when the clock has not moved between them.
pub fn timestamp_id() -> (r: String)
    ensures
        exists|h: u64| r@ == decimal_of(h as nat),
{
    let mut hasher = DefaultHasher::new();
    let now = SystemTime::now();
    feed_time(&now, &mut hasher);
    let h = hasher.finish();
    decimal(h)
}

} // verus!
