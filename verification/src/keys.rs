//! The server's own secret keys.

use vstd::prelude::*;

verus! {

/// The salt used when hashing client addresses.
#[derive(Copy, Clone)]
pub struct Keys {
    pub ip_salt: [u8; 32],
}

} // verus!
