//! The line protocol: the commands a client sends, one per line, and the
//! numeric replies written back.

pub mod commands;
pub mod primitives;
pub mod replies;

use vstd::prelude::*;

verus! {

} // verus!
