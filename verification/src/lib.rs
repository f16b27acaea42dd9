pub mod codec;
pub mod compress;
pub mod conn;
pub mod errs;
pub mod hsmsgs;
pub mod msgs;
pub mod negotiation;
pub mod opts;
pub mod outside;
pub mod provider;
pub mod record;
pub mod resolver;
pub mod session;
pub mod shim;
pub mod stream;

use vstd::prelude::*;

verus! {

/// Protocol version code for TLS 1.2 on the wire.
pub const TLS12: u16 = 0x0303;

/// Protocol version code for TLS 1.3 on the wire.
pub const TLS13: u16 = 0x0304;

} // verus!
