use vstd::prelude::*;

verus! {

/// Every failure an operation can report, with a stable, named kind.
///
/// The validation kinds (`InvalidQuestion`, `InvalidOptions`,
/// `InvalidOptionText`, `InvalidOptionIndex`) reject caller input before any
/// state changes.  The conflict kinds (`AddressOccupied`, `AlreadyVoted`,
/// `PollNotFound`) report uniqueness violations or a missing record.
/// `AddressSpaceExhausted` means no disambiguator value yields a usable
/// address.
#[derive(Clone, Copy, Debug, PartialEq, Eq, Structural)]
pub enum PollError {
    /// The question is empty or longer than 200 bytes.
    InvalidQuestion,
    /// There are fewer than 2 or more than 10 options.
    InvalidOptions,
    /// Some option is empty or longer than 50 bytes.
    InvalidOptionText,
    /// The chosen option index is out of range for the poll.
    InvalidOptionIndex,
    /// No poll record exists at the given address.
    PollNotFound,
    /// A record already exists at the derived address.
    AddressOccupied,
    /// A vote record by this voter already exists for this poll.
    AlreadyVoted,
    /// No disambiguator value yields a usable address.
    AddressSpaceExhausted,
}

} // verus!
