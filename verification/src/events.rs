//! Records of the event log, and messages to an inbox.
use vstd::prelude::*;

verus! {

/// One record of the event log.
pub struct LogEvent {
    pub kind: String,
    pub subject: String,
    pub detail: String,
}

impl LogEvent {
    /// The record says exactly this.
    pub open spec fn says(&self, kind: Seq<char>, subject: Seq<char>, detail: Seq<char>) -> bool {
        &&& self.kind@ == kind
        &&& self.subject@ == subject
        &&& self.detail@ == detail
    }
}

/// The record with this kind, subject and detail.
pub fn event(kind: &str, subject: &str, detail: &str) -> (e: LogEvent)
    ensures
        e.says(kind@, subject@, detail@),
{
    LogEvent {
        kind: String::from_str(kind),
        subject: String::from_str(subject),
        detail: String::from_str(detail),
    }
}

/// A message to an agent's inbox.
pub struct Message {
    pub to: String,
    pub source: String,
    pub kind: String,
    pub text: String,
}

impl Message {
    /// The message says exactly this.
    pub open spec fn says(
        &self,
        to: Seq<char>,
        source: Seq<char>,
        kind: Seq<char>,
        text: Seq<char>,
    ) -> bool {
        &&& self.to@ == to
        &&& self.source@ == source
        &&& self.kind@ == kind
        &&& self.text@ == text
    }
}

/// The message with this recipient, source, kind and text.
pub fn message(to: &str, source: &str, kind: &str, text: &str) -> (m: Message)
    ensures
        m.says(to@, source@, kind@, text@),
{
    Message {
        to: String::from_str(to),
        source: String::from_str(source),
        kind: String::from_str(kind),
        text: String::from_str(text),
    }
}

/// A message that is about an agent.
pub struct Notice {
    pub message: Message,
    pub about: String,
}

impl Notice {
    /// The notice says exactly this.
    pub open spec fn says(
        &self,
        to: Seq<char>,
        source: Seq<char>,
        kind: Seq<char>,
        text: Seq<char>,
        about: Seq<char>,
    ) -> bool {
        &&& self.message.says(to, source, kind, text)
        &&& self.about@ == about
    }
}

/// The notice with this recipient, source, kind and text, about this agent.
pub fn notice(to: &str, source: &str, kind: &str, text: &str, about: &str) -> (n: Notice)
    ensures
        n.says(to@, source@, kind@, text@, about@),
{
    Notice { message: message(to, source, kind, text), about: String::from_str(about) }
}

/// What a record says are its kind, its subject and its particulars.
pub proof fn law_what_a_record_says(
    e: LogEvent,
    kind: Seq<char>,
    subject: Seq<char>,
    detail: Seq<char>,
)
    ensures
        e.says(kind, subject, detail) <==> e.kind@ == kind && e.subject@ == subject && e.detail@
            == detail,
{
}

/// What a message says are its recipient, its source, its kind and its text, and what a
/// notice says is also whom it is about.
pub proof fn law_what_a_message_says(
    n: Notice,
    to: Seq<char>,
    source: Seq<char>,
    kind: Seq<char>,
    text: Seq<char>,
    about: Seq<char>,
)
    ensures
        n.message.says(to, source, kind, text) <==> n.message.to@ == to && n.message.source@
            == source && n.message.kind@ == kind && n.message.text@ == text,
        n.says(to, source, kind, text, about) <==> n.message.says(to, source, kind, text)
            && n.about@ == about,
{
}

} // verus!
