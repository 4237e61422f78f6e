use vstd::prelude::*;

verus! {

/// The bot's plain name, used for config paths and log file names.
pub const NAME: &'static str = "baerbot";

/// The bot's display name.
pub const NAME_CAPITALIZED: &'static str = "B\u{e4}rbot";

/// Relies on `std::time::SystemTime::now` and `duration_since`: whole seconds
/// since the Unix epoch, or zero when the clock sits before it. A clock
/// reading promises nothing further.
#[verifier::external_body]
pub fn get_unix() -> u64 {
    let now = std::time::SystemTime::now();
    now.duration_since(std::time::UNIX_EPOCH).map(|res| res.as_secs()).unwrap_or(0)
}

/// Relies on `std::time::SystemTime::now` and `duration_since`: milliseconds
/// since the Unix epoch (truncated to 64 bits), or zero when the clock sits
/// before it. A clock reading promises nothing further.
#[verifier::external_body]
pub fn get_unix_milli() -> u64 {
    let now = std::time::SystemTime::now();
    now.duration_since(std::time::UNIX_EPOCH).map(|res| res.as_millis() as u64).unwrap_or(0)
}

} // verus!
