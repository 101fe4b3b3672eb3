//! The decision rule for binding display-registry globals: a global may be
//! instantiated only if the registry advertises its interface at or above
//! the requested version. The registry round-trip itself is protocol I/O
//! and stays outside this crate; it hands the advertised entry in as a
//! plain value.

use vstd::prelude::*;

verus! {

/// One advertised global of the display registry: its numeric name and
/// the version the server offers.
#[derive(Clone, Copy, Debug, PartialEq, Eq, Structural)]
pub struct GlobalEntry {
    pub name: u32,
    pub version: u32,
}

/// Why a registry global could not be instantiated.
#[derive(Clone, Copy, Debug, PartialEq, Eq, Structural)]
pub enum InstantiateError {
    /// No global of the requested interface was advertised.
    NotFound,
    /// The advertised version (carried here) is below the requested
    /// minimum.
    InvalidVersion(u32),
}

/// Whether the advertised entry (if any) satisfies the requested minimum
/// version, and with which error it is refused otherwise, if and only if.
pub fn instantiate_check(entry: Option<GlobalEntry>, min_ver: u32) -> (r: Result<
    GlobalEntry,
    InstantiateError,
>)
    ensures
        match r {
            Ok(e) => entry == Some(e) && min_ver <= e.version,
            Err(InstantiateError::NotFound) => entry is None,
            Err(InstantiateError::InvalidVersion(v)) => entry matches Some(e) && e.version == v
                && min_ver > v,
        },
{
    match entry {
        None => Err(InstantiateError::NotFound),
        Some(e) => {
            if min_ver <= e.version {
                Ok(e)
            } else {
                Err(InstantiateError::InvalidVersion(e.version))
            }
        },
    }
}

} // verus!
