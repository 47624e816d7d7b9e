//! The RPC replies that frame what the procedures answer.

use vstd::prelude::*;

use crate::word::{be32, be32_len};
use crate::xdr::{XDR};

verus! {

broadcast use be32_len;

pub const REPLY: u32 = 1;

pub const MSG_ACCEPTED: u32 = 0;

pub const SUCCESS: u32 = 0;

pub const PROC_UNAVAIL: u32 = 3;

/// The header of an accepted reply: transaction id, reply, accepted, an empty
/// verifier of flavor AUTH_NONE, and the accept status.
pub open spec fn reply_header(xid: u32, stat: u32) -> Seq<u8> {
    be32(xid) + be32(REPLY) + be32(MSG_ACCEPTED) + be32(0) + be32(0) + be32(stat)
}

fn accepted(xid: u32, stat: u32) -> (out: Vec<u8>)
    ensures
        out@ == reply_header(xid, stat),
{
    let mut out: Vec<u8> = Vec::new();
    xid.serialize(&mut out);
    REPLY.serialize(&mut out);
    MSG_ACCEPTED.serialize(&mut out);
    0u32.serialize(&mut out);
    0u32.serialize(&mut out);
    stat.serialize(&mut out);
    assert(out@ =~= reply_header(xid, stat));
    out
}

/// The header of a reply whose procedure ran.
pub fn make_success_reply(xid: u32) -> (out: Vec<u8>)
    ensures
        out@ == reply_header(xid, SUCCESS),
{
    accepted(xid, SUCCESS)
}

/// The reply to a call of a procedure that there is not.
pub fn proc_unavail_reply_message(xid: u32) -> (out: Vec<u8>)
    ensures
        out@ == reply_header(xid, PROC_UNAVAIL),
{
    accepted(xid, PROC_UNAVAIL)
}

} // verus!
