//! How a PRIVMSG, NOTICE or TAGMSG reaches each recipient: the tagged
//! line for clients that negotiated `message-tags`, the plain line (or a
//! plain fallback) for the others.
use vstd::prelude::*;
use crate::tags::TagMap;
use crate::text::{chars_of, push_str, same_text, string_from};

verus! {

/// Which line a recipient gets.
#[derive(Debug, Clone, Copy, PartialEq, Eq, Structural)]
pub enum Delivery {
    /// Nothing.
    Skip,
    /// The line with its message tags.
    Tagged,
    /// The line without tags.
    Plain,
    /// A plain-text stand-in for a TAGMSG.
    Fallback,
}

/// Whether a target names a channel (starts with `#` or `&`).
pub fn is_channel_target(target: &str) -> (r: bool)
    ensures
        r == (target@.len() > 0 && (target@[0] == '#' || target@[0] == '&')),
{
    let c = chars_of(target);
    c.len() > 0 && (c[0] == '#' || c[0] == '&')
}

/// The message rule: a sender hears its own channel message only with
/// `echo-message`; the tagged line goes to clients with `message-tags`
/// when the message has tags, the plain line to everyone else.
pub open spec fn message_rule(is_sender: bool, echo_message: bool, message_tags: bool, has_tags: bool) -> Delivery {
    if is_sender && !echo_message {
        Delivery::Skip
    } else if has_tags && message_tags {
        Delivery::Tagged
    } else {
        Delivery::Plain
    }
}

/// Which line of a PRIVMSG or NOTICE a recipient gets. For a private
/// message the recipient is never the sender.
pub fn message_delivery(is_sender: bool, echo_message: bool, message_tags: bool, has_tags: bool) -> (r: Delivery)
    ensures
        r == message_rule(is_sender, echo_message, message_tags, has_tags),
        r is Tagged ==> message_tags,
        !is_sender ==> r !is Skip,
{
    if is_sender && !echo_message {
        Delivery::Skip
    } else if has_tags && message_tags {
        Delivery::Tagged
    } else {
        Delivery::Plain
    }
}

/// The TAGMSG rule: never back to the sender; the TAGMSG itself to
/// clients with `message-tags`, the fallback (if there is one) to the
/// others.
pub open spec fn tagmsg_rule(is_sender: bool, message_tags: bool, has_fallback: bool) -> Delivery {
    if is_sender {
        Delivery::Skip
    } else if message_tags {
        Delivery::Tagged
    } else if has_fallback {
        Delivery::Fallback
    } else {
        Delivery::Skip
    }
}

/// Which line of a TAGMSG a recipient gets.
pub fn tagmsg_delivery(is_sender: bool, message_tags: bool, has_fallback: bool) -> (r: Delivery)
    ensures
        r == tagmsg_rule(is_sender, message_tags, has_fallback),
{
    if is_sender {
        Delivery::Skip
    } else if message_tags {
        Delivery::Tagged
    } else if has_fallback {
        Delivery::Fallback
    } else {
        Delivery::Skip
    }
}

/// `:<hostmask> <command> <target> :<text>`, the line for clients without
/// `message-tags`.
pub fn plain_line(hostmask: &str, command: &str, target: &str, text: &str) -> (r: String)
    ensures
        r@ == ":"@ + hostmask@ + " "@ + command@ + " "@ + target@ + " :"@ + text@ + "\r\n"@,
{
    let mut s = string_from(":");
    push_str(&mut s, hostmask);
    push_str(&mut s, " ");
    push_str(&mut s, command);
    push_str(&mut s, " ");
    push_str(&mut s, target);
    push_str(&mut s, " :");
    push_str(&mut s, text);
    push_str(&mut s, "\r\n");
    s
}

/// The plain stand-in for a reaction: a CTCP ACTION saying
/// `reacted with <emoji>`.
pub open spec fn react_text(hostmask: Seq<char>, target: Seq<char>, emoji: Seq<char>) -> Seq<char> {
    ":"@ + hostmask + " PRIVMSG "@ + target + " :\x01ACTION reacted with "@ + emoji + "\x01\r\n"@
}

/// The plain stand-in for a TAGMSG: only a `+react` has one.
pub fn tagmsg_fallback(hostmask: &str, target: &str, tags: &TagMap) -> (r: Option<String>)
    ensures
        match r {
            Some(s) => tags@.contains_key("+react"@) && s@ == react_text(hostmask@, target@, tags@["+react"@]),
            None => !tags@.contains_key("+react"@),
        },
{
    match tags.get("+react") {
        Some(emoji) => {
            let mut s = string_from(":");
            push_str(&mut s, hostmask);
            push_str(&mut s, " PRIVMSG ");
            push_str(&mut s, target);
            push_str(&mut s, " :\x01ACTION reacted with ");
            push_str(&mut s, emoji.as_str());
            push_str(&mut s, "\x01\r\n");
            Some(s)
        },
        None => None,
    }
}

/// What happens to a private message whose target is not connected here.
#[derive(Debug, Clone, Copy, PartialEq, Eq, Structural)]
pub enum Unrouted {
    /// Relay it to the peer servers, whose home server delivers it.
    Relay,
    /// `ERR_NOSUCHNICK`: without federation the target does not exist.
    NoSuchNick,
    /// Drop it.
    Drop,
}

/// The rule for a private message to a nick not connected here: PRIVMSG
/// and NOTICE are relayed when federation is active, else refused; other
/// commands are dropped.
pub open spec fn unrouted_rule(command: Seq<char>, federated: bool) -> Unrouted {
    if command == "PRIVMSG"@ || command == "NOTICE"@ {
        if federated {
            Unrouted::Relay
        } else {
            Unrouted::NoSuchNick
        }
    } else {
        Unrouted::Drop
    }
}

/// With federation active, a PRIVMSG or NOTICE to a nick not connected
/// here goes to the peer servers; without it the sender is told the nick
/// does not exist; any other command is dropped.
pub proof fn law_unrouted_relays_when_federated(command: Seq<char>, federated: bool)
    ensures
        (command == "PRIVMSG"@ || command == "NOTICE"@) && federated ==> unrouted_rule(command, federated) is Relay,
        (command == "PRIVMSG"@ || command == "NOTICE"@) && !federated ==> unrouted_rule(command, federated) is NoSuchNick,
        !(command == "PRIVMSG"@ || command == "NOTICE"@) ==> unrouted_rule(command, federated) is Drop,
{
}

/// What happens to a private message whose target is not connected here.
pub fn unrouted_private(command: &str, federated: bool) -> (r: Unrouted)
    ensures
        r == unrouted_rule(command@, federated),
        (command@ == "PRIVMSG"@ || command@ == "NOTICE"@) && federated ==> r is Relay,
        (command@ == "PRIVMSG"@ || command@ == "NOTICE"@) && !federated ==> r is NoSuchNick,
        !(command@ == "PRIVMSG"@ || command@ == "NOTICE"@) ==> r is Drop,
{
    let c = chars_of(command);
    if same_text(c.as_slice(), "PRIVMSG") || same_text(c.as_slice(), "NOTICE") {
        if federated {
            Unrouted::Relay
        } else {
            Unrouted::NoSuchNick
        }
    } else {
        Unrouted::Drop
    }
}

} // verus!
