//! Shared error vocabulary of the driver.

use vstd::prelude::*;

verus! {

/// Failure kinds reported by driver operations.
///
/// `LateCollision` is reserved for a datasheet-level condition that no code
/// path raises yet.  `Spi` carries a static reason naming which bus
/// operation kind failed inside a transaction; `IOError` is a failure of a
/// higher-level register read/write; `Gpio` is a failed chip-select or
/// chip-enable toggle; `ConfigError` is a failed configuration write while
/// entering transmit mode.
#[derive(Debug)]
pub enum Error {
    LateCollision,
    Spi(&'static str),
    Gpio,
    IOError(&'static str),
    ConfigError,
}

/// Failure kinds of `Nrf24l01Bulider::build`: one per missing mandatory
/// dependency, plus `Other` for any protocol failure during the
/// post-construction configuration sequence.
#[derive(Debug)]
pub enum BuilderError {
    SpiNotSpecified,
    CsnNotSpecified,
    CeNotSpecified,
    TimerNotSpecified,
    Other,
}

} // verus!
