//! The outbound message and the line of text that stands for it.

use vstd::prelude::*;
use vstd::string::StringExecFns;

verus! {

/// The line for a message: three fixed labels, each followed by one field,
/// copied as it is. Nothing is escaped, trimmed or validated.
pub open spec fn line_text(sender: Seq<char>, body: Seq<char>, destination: Seq<char>) -> Seq<char> {
    "[RED] De: "@ + sender + " | Msg: "@ + body + " | Hacia: "@ + destination
}

/// Builds the line for the three fields.
pub fn format_line(sender: &str, body: &str, destination: &str) -> (line: String)
    ensures
        line@ == line_text(sender@, body@, destination@),
{
    let mut line = String::from_str("[RED] De: ");
    line.append(sender);
    line.append(" | Msg: ");
    line.append(body);
    line.append(" | Hacia: ");
    line.append(destination);
    line
}

/// A message as the contracts see it: its three fields as plain text.
pub struct MessageText {
    pub sender: Seq<char>,
    pub body: Seq<char>,
    pub destination: Seq<char>,
}

impl MessageText {
    /// The line that the message is logged as.
    pub open spec fn line(self) -> Seq<char> {
        line_text(self.sender, self.body, self.destination)
    }
}

/// A message on its way out. Any text is a valid field: the empty string,
/// text with control characters, an address that is no address.
#[derive(Clone, Debug)]
pub struct OutboundMessage {
    pub sender: String,
    pub body: String,
    pub destination: String,
}

impl View for OutboundMessage {
    type V = MessageText;

    open spec fn view(&self) -> MessageText {
        MessageText { sender: self.sender@, body: self.body@, destination: self.destination@ }
    }
}

impl OutboundMessage {
    /// A message made of the three fields, each kept as given.
    pub fn new(sender: String, body: String, destination: String) -> (message: OutboundMessage)
        ensures
            message.sender == sender,
            message.body == body,
            message.destination == destination,
    {
        OutboundMessage { sender, body, destination }
    }

    /// Builds the line of this message.
    pub fn render(&self) -> (line: String)
        ensures
            line@ == self@.line(),
    {
        format_line(self.sender.as_str(), self.body.as_str(), self.destination.as_str())
    }
}

/// The labels take 28 characters, and each field stands whole at its place
/// between them: the sender after the first label, the body after the
/// second, the destination after the third and up to the end of the line.
pub proof fn lemma_fields_verbatim(sender: Seq<char>, body: Seq<char>, destination: Seq<char>)
    ensures
        ({
            let line = line_text(sender, body, destination);
            let s = sender.len() as int;
            let b = body.len() as int;
            let d = destination.len() as int;
            &&& line.len() == 28 + s + b + d
            &&& line.subrange(0, 10) == "[RED] De: "@
            &&& line.subrange(10, 10 + s) == sender
            &&& line.subrange(10 + s, 18 + s) == " | Msg: "@
            &&& line.subrange(18 + s, 18 + s + b) == body
            &&& line.subrange(18 + s + b, 28 + s + b) == " | Hacia: "@
            &&& line.subrange(28 + s + b, 28 + s + b + d) == destination
        }),
{
    reveal_strlit("[RED] De: ");
    reveal_strlit(" | Msg: ");
    reveal_strlit(" | Hacia: ");
    let line = line_text(sender, body, destination);
    let s = sender.len() as int;
    let b = body.len() as int;
    let d = destination.len() as int;
    assert(line.subrange(0, 10) =~= "[RED] De: "@);
    assert(line.subrange(10, 10 + s) =~= sender);
    assert(line.subrange(10 + s, 18 + s) =~= " | Msg: "@);
    assert(line.subrange(18 + s, 18 + s + b) =~= body);
    assert(line.subrange(18 + s + b, 28 + s + b) =~= " | Hacia: "@);
    assert(line.subrange(28 + s + b, 28 + s + b + d) =~= destination);
}

} // verus!
