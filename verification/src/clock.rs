//! The time of day in milliseconds.
use vstd::prelude::*;

verus! {

/// `std::time::SystemTime::elapsed` on the Unix epoch: how long ago it was, or
/// nothing where the clock stands before it. Nothing is claimed of the time.
#[verifier::external_body]
fn since_epoch() -> (r: Option<std::time::Duration>) {
    std::time::SystemTime::UNIX_EPOCH.elapsed().ok()
}

/// What `std::time::Duration::as_millis` returns: the whole milliseconds of a
/// span of time.
pub uninterp spec fn duration_millis(d: std::time::Duration) -> u128;

/// `std::time::Duration::as_millis`: a function of the span of time alone.
#[verifier::external_body]
fn whole_millis(d: std::time::Duration) -> (r: u128)
    ensures
        r == duration_millis(d),
{
    d.as_millis()
}

/// The milliseconds of a span of time as far as they fit, or zero where there
/// is none.
pub open spec fn clock_millis(elapsed: Option<std::time::Duration>) -> u64 {
    match elapsed {
        Some(d) => (duration_millis(d) % 0x1_0000_0000_0000_0000) as u64,
        None => 0,
    }
}

/// The lower 64 bits of a count of milliseconds, or zero where there is none.
pub fn millis_or_zero(millis: Option<u128>) -> (r: u64)
    ensures
        r == (match millis {
            Some(n) => n % 0x1_0000_0000_0000_0000,
            None => 0,
        }),
{
    match millis {
        Some(n) => {
            assert(n as u64 == n % 0x1_0000_0000_0000_0000) by (bit_vector);
            #[verifier::truncate]
            (n as u64)
        },
        None => 0,
    }
}

/// The milliseconds since the Unix epoch, whatever the clock says.
pub fn now_millis() -> (r: u64)
    ensures
        exists|elapsed: Option<std::time::Duration>| r == #[trigger] clock_millis(elapsed),
{
    let elapsed = since_epoch();
    let r: u64 = match elapsed {
        Some(d) => millis_or_zero(Some(whole_millis(d))),
        None => millis_or_zero(None),
    };
    assert(r == clock_millis(elapsed));
    r
}

} // verus!
