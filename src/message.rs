use vstd::prelude::*;

verus! {

/// One chat event, shared read-only by every peer that must deliver it.
#[derive(Debug)]
pub enum Message {
    /// Precomputed text announcing that a user joined.
    UserJoined(String),
    /// Precomputed text announcing that a user left.
    UserLeft(String),
    /// A line of chat written by `sender`.
    Chat { sender: String, content: String },
}

/// The announcement text for `name` joining.
pub open spec fn joined_text(name: Seq<char>) -> Seq<char> {
    name + " joined the chat"@
}

/// The announcement text for `name` leaving.
pub open spec fn left_text(name: Seq<char>) -> Seq<char> {
    name + " left the chat, :("@
}

/// The text of a chat line: sender, colon, space, content.
pub open spec fn chat_text(sender: Seq<char>, content: Seq<char>) -> Seq<char> {
    sender + ": "@ + content
}

impl Message {
    /// The canonical rendering of the message.
    pub open spec fn text(&self) -> Seq<char> {
        match self {
            Message::UserJoined(t) => t@,
            Message::UserLeft(t) => t@,
            Message::Chat { sender, content } => chat_text(sender@, content@),
        }
    }

    pub fn user_joined(username: &str) -> (r: Message)
        ensures
            r is UserJoined,
            r.text() == joined_text(username@),
    {
        let mut t = String::from_str(username);
        t.append(" joined the chat");
        Message::UserJoined(t)
    }

    pub fn user_left(username: &str) -> (r: Message)
        ensures
            r is UserLeft,
            r.text() == left_text(username@),
    {
        let mut t = String::from_str(username);
        t.append(" left the chat, :(");
        Message::UserLeft(t)
    }

    pub fn chat(sender: &str, content: &str) -> (r: Message)
        ensures
            r matches Message::Chat { sender: s, content: c } && s@ == sender@ && c@ == content@,
            r.text() == chat_text(sender@, content@),
    {
        Message::Chat { sender: String::from_str(sender), content: String::from_str(content) }
    }

    /// The text written to a peer for this message.
    pub fn render(&self) -> (r: String)
        ensures
            r@ == self.text(),
    {
        match self {
            Message::UserJoined(t) => t.clone(),
            Message::UserLeft(t) => t.clone(),
            Message::Chat { sender, content } => {
                let mut r = sender.clone();
                r.append(": ");
                r.append(content.as_str());
                r
            },
        }
    }
}

} // verus!
