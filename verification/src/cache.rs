//! Cache of analysis results beside the repository.

use vstd::prelude::*;

verus! {

/// File name of the cache, inside the repository directory.
pub const CACHE_FILENAME: &'static str = ".warden-cache.json";

/// Seconds after which a cached result is no longer used.
pub const CACHE_MAX_AGE_SECS: u64 = 3600;

/// A cache whose age is known is valid while younger than `max_age_secs`;
/// one whose age cannot be read is not.
pub fn is_cache_valid(age_secs: Option<u64>, max_age_secs: u64) -> (r: bool)
    ensures
        r == (age_secs matches Some(age) && age < max_age_secs),
{
    match age_secs {
        Some(age) => age < max_age_secs,
        None => false,
    }
}

} // verus!
