use vstd::prelude::*;

verus! {

/// Relies on std::time::SystemTime::now: the wall clock in milliseconds
/// since the Unix epoch (a clock set before the epoch reads as 0).
#[verifier::external_body]
pub fn time_since_unix_epoch() -> u128 {
    std::time::SystemTime::now().duration_since(std::time::UNIX_EPOCH).unwrap_or_default().as_millis()
}

/// Relies on rand::random: a value drawn from the thread-local generator;
/// nothing is known of it.
pub assume_specification<T>[ rand::random::<T> ]() -> (r: T)
    where
        rand::distributions::Standard: rand::distributions::Distribution<T>,
;

} // verus!
