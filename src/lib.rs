//! Proof-of-work challenge solving.
//!
//! A challenge is a session id, an index and a difficulty. Its solution is the
//! least candidate `c: u32` for which the lowercase hex form of
//! SHA-256(`decimal(index) ++ session id ++ decimal(c)`) starts with
//! `difficulty` zero characters.

pub mod message;
pub mod hash;
pub mod solver;

use vstd::prelude::*;
use vstd::string::StringExecFns;

verus! {

/// The version of this library.
pub fn get_version() -> (r: String)
    ensures
        r@ == "0.1.0"@,
{
    String::from_str("0.1.0")
}

} // verus!
