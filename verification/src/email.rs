//! Mail sender configuration. The connection parameters are set at most
//! once, before first use; a second attempt is a defined error, never a
//! silent overwrite. The SMTP transport itself is an external
//! collaborator; the strings that cross to it are built here.
use vstd::prelude::*;

use crate::error::ErrorKind;
use crate::handle::ConfigSlot;

verus! {

/// SMTP connection parameters.
pub struct MailConfig {
    pub from: String,
    pub pwd: String,
    pub relay: String,
    pub port: u16,
}

/// Stores the mail configuration if none is stored yet; a second attempt
/// is rejected and changes nothing.
pub fn init(slot: &mut ConfigSlot<MailConfig>, from: &str, pwd: &str, relay: &str, port: u16) -> (r:
    Result<(), ErrorKind>)
    ensures
        old(slot).spec_get() is None ==> r is Ok && (final(slot).spec_get() matches Some(c)
            && c.from@ == from@ && c.pwd@ == pwd@ && c.relay@ == relay@ && c.port == port),
        old(slot).spec_get() is Some ==> r is Err && final(slot).spec_get() == old(slot).spec_get(),
{
    slot.set(
        MailConfig {
            from: String::from_str(from),
            pwd: String::from_str(pwd),
            relay: String::from_str(relay),
            port,
        },
    )
}

/// The sender mailbox line handed to the transport.
pub fn sender_mailbox(from: &str) -> (r: String)
    ensures
        r@ == "evolve.publisher <"@ + from@ + ">"@,
{
    let mut s = String::from_str("evolve.publisher <");
    s.append(from);
    s.append(">");
    s
}

/// The recipient mailbox line handed to the transport.
pub fn recipient_mailbox(to: &str) -> (r: String)
    ensures
        r@ == "reciver <"@ + to@ + ">"@,
{
    let mut s = String::from_str("reciver <");
    s.append(to);
    s.append(">");
    s
}

} // verus!
