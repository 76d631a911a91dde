//! The closed error taxonomy, and the normalization of raw return codes.

use vstd::prelude::*;

verus! {

/// Everything that an operation on a container can fail with.
#[derive(Debug, Clone, Copy, PartialEq, Eq, Structural)]
pub enum Error {
    /// The operation needed a defined container and there was none.
    ContainerDoesNotExists,
    /// A container was to be created under a name that is already defined.
    ContainerAlreadyExists,
    /// Any other failure: the native side reports no further detail.
    Unknown,
}

/// What a boolean success flag of the native side means.
pub open spec fn flag_result(ok: bool) -> Result<(), Error> {
    if ok {
        Ok(())
    } else {
        Err(Error::Unknown)
    }
}

/// What a signed return code means: a negative code reports failure, any
/// other code is the count, size or index itself.
pub open spec fn code_result(code: i32) -> Result<u32, Error> {
    if code < 0 {
        Err(Error::Unknown)
    } else {
        Ok(code as u32)
    }
}

/// What a returned address means: the null address reports failure.
pub open spec fn address_result(address: usize) -> Result<usize, Error> {
    if address == 0 {
        Err(Error::Unknown)
    } else {
        Ok(address)
    }
}

impl Error {
    /// Normalizes a boolean success flag.
    pub fn from_flag(ok: bool) -> (r: Result<(), Error>)
        ensures
            r == flag_result(ok),
    {
        if ok {
            Ok(())
        } else {
            Err(Error::Unknown)
        }
    }

    /// Normalizes a signed return code.
    pub fn from_code(code: i32) -> (r: Result<u32, Error>)
        ensures
            r == code_result(code),
    {
        if code < 0 {
            Err(Error::Unknown)
        } else {
            Ok(code as u32)
        }
    }

    /// Normalizes a returned address.
    pub fn from_address(address: usize) -> (r: Result<usize, Error>)
        ensures
            r == address_result(address),
    {
        if address == 0 {
            Err(Error::Unknown)
        } else {
            Ok(address)
        }
    }
}

} // verus!
