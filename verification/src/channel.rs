//! The messages that producer threads send over a channel.

use vstd::prelude::*;
use crate::text::{append_signed_decimal, signed_decimal};

verus! {

/// The message producer `i` sends: `"Hello from the thread! "` followed by
/// `i` in decimal.
pub fn channel_payload(i: i32) -> (msg: String)
    ensures
        msg@ == "Hello from the thread! "@ + signed_decimal(i as int),
{
    let mut msg = String::from_str("Hello from the thread! ");
    append_signed_decimal(&mut msg, i as i64);
    msg
}

} // verus!
