//! The commands that the shell can invoke by name.

use vstd::prelude::*;
use vstd::string::StringExecFns;
use crate::message::OutboundMessage;
use crate::output::{log_message, record_text};

verus! {

/// The name under which the one command is invoked.
pub open spec fn command_name() -> Seq<char> {
    "enviar_a_servidor"@
}

/// The command itself: logs the message from `user` to `ip`. It adds one
/// record to `out`, returns nothing and cannot fail.
pub fn enviar_a_servidor(out: &mut String, user: String, message: String, ip: String)
    ensures
        final(out)@ == old(out)@ + record_text(user@, message@, ip@),
{
    let outbound = OutboundMessage::new(user, message, ip);
    log_message(out, &outbound);
}

/// Routes an invocation by name. The one known name runs its command on the
/// arguments, taken as sender, body and destination; any other name runs
/// nothing and leaves `out` as it was. The result says whether the name was
/// known.
pub fn dispatch(out: &mut String, command: &str, arguments: OutboundMessage) -> (known: bool)
    ensures
        known == (command@ == command_name()),
        known ==> final(out)@ == old(out)@ + record_text(
            arguments@.sender,
            arguments@.body,
            arguments@.destination,
        ),
        !known ==> final(out)@ == old(out)@,
{
    if String::from_str(command) == String::from_str("enviar_a_servidor") {
        enviar_a_servidor(out, arguments.sender, arguments.body, arguments.destination);
        true
    } else {
        false
    }
}

} // verus!
