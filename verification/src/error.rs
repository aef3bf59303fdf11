use vstd::prelude::*;

verus! {

/// The failure taxonomy of the paste service.
///
/// `InvalidId` is a client error: a lookup identifier that is not in the
/// backing store's accepted format, rejected before any storage access.
/// `NotFound` is the normal outcome of a well-formed lookup that matches
/// no record. `AddressUnavailable` means the submitter's network address
/// could not be determined on create. `StorageUnavailable` covers any
/// failure of the backing collection itself.
#[derive(Clone, Copy, Debug, PartialEq, Eq, Structural)]
pub enum PasteError {
    InvalidId,
    NotFound,
    AddressUnavailable,
    StorageUnavailable,
}

} // verus!
