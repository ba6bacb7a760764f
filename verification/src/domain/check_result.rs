//! The bits of a domain's check result, one for each signal.

use vstd::prelude::*;

verus! {

/// No signal.
pub const EMPTY: u8 = 0b00000;

/// The answering address lies in a published range.
pub const CF_IP: u8 = 0b00001;

/// The response carries a `cf-ray` header.
pub const CF_RAY_HEADER: u8 = 0b00010;

/// The response carries a `cf-cache-status` header.
pub const CF_CACHE_STATUS_HEADER: u8 = 0b00100;

/// The `server` header names the provider.
pub const CF_SERVER: u8 = 0b01000;

/// A certificate's issuer names the provider.
pub const CF_SSL: u8 = 0b10000;

} // verus!
