//! Connection-level decisions of the server.

use vstd::prelude::*;
use vstd::string::*;
use crate::text::{contains, contains_spec};

verus! {

/// A connection error message that only reports the peer going away:
/// a reset, a broken pipe, a closed connection or an early end of file.
pub open spec fn normal_close_message(msg: Seq<char>) -> bool {
    ||| contains_spec(msg, "connection reset by peer"@)
    ||| contains_spec(msg, "broken pipe"@)
    ||| contains_spec(msg, "connection closed"@)
    ||| contains_spec(msg, "unexpected end of file"@)
    ||| contains_spec(msg, "os error 104"@)
    ||| contains_spec(msg, "os error 32"@)
}

/// Whether a connection error is a normal close rather than a fault.
pub fn is_normal_close(msg: &str) -> (r: bool)
    ensures
        r == normal_close_message(msg@),
{
    contains(msg, "connection reset by peer") || contains(msg, "broken pipe") || contains(
        msg,
        "connection closed",
    ) || contains(msg, "unexpected end of file") || contains(msg, "os error 104") || contains(
        msg,
        "os error 32",
    )
}

} // verus!
