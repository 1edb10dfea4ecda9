//! The terminal client's state and what each key does to it, and the lines it
//! draws.
use vstd::prelude::*;
use vstd::string::*;
use crate::command::ClientCommand;
use crate::id::ConversationId;
use crate::message::nodes_text;
use crate::render::{PlainTextRenderer, RichTextRenderer};
use crate::text::{trim_spec, trim_text};
use crate::view::{ConversationView, MessageView};

verus! {

/// What the terminal shows: the conversations, the messages of the selected
/// one, which one is selected, the text being typed, and a status.
#[derive(Debug)]
pub struct App {
    pub conversations: Vec<ConversationView>,
    pub messages: Vec<MessageView>,
    pub selected: usize,
    pub input: String,
    pub status: String,
}

/// A key the terminal client reacts to.
#[derive(Debug, Clone, Copy, PartialEq, Eq, Structural)]
pub enum Key {
    Esc,
    Up,
    Down,
    Backspace,
    Enter,
    Char(char),
    Other,
}

/// What the client does after a key.
#[derive(Debug)]
pub enum KeyOutcome {
    /// Leave the client.
    Quit,
    /// Go on.
    Continue,
    /// Send the command, then go on.
    Send(ClientCommand),
}

impl Default for App {
    /// Nothing listed, the first entry selected, nothing typed, no status.
    fn default() -> (app: Self)
        ensures
            app.conversations.len() == 0,
            app.messages.len() == 0,
            app.selected == 0,
            app.input@.len() == 0,
            app.status@.len() == 0,
    {
        App {
            conversations: Vec::new(),
            messages: Vec::new(),
            selected: 0,
            input: String::new(),
            status: String::new(),
        }
    }
}

/// The id of the selected conversation, if the selection is in the list.
pub open spec fn selected_id(app: App) -> Option<ConversationId> {
    if app.selected < app.conversations.len() {
        Some(app.conversations@[app.selected as int].id)
    } else {
        None
    }
}

/// The id of the selected conversation, if the selection is in the list.
pub fn selected_conversation(app: &App) -> (id: Option<ConversationId>)
    ensures
        id == selected_id(*app),
{
    if app.selected < app.conversations.len() {
        Some(app.conversations[app.selected].id.clone())
    } else {
        None
    }
}

impl App {
    /// What a key does. Escape quits. Up and down move the selection, not
    /// below the first conversation nor past the last. Backspace deletes the
    /// last character typed, and characters are typed at the end. Enter sends
    /// the typed text, without white space at either end, to the selected
    /// conversation, and clears it; it does nothing where no conversation is
    /// selected or the text is only white space.
    pub fn handle_key(&mut self, key: Key) -> (outcome: KeyOutcome)
        requires
            key == Key::Down && old(self).conversations.len() > 0 ==> old(self).selected < usize::MAX,
        ensures
            final(self).conversations@ == old(self).conversations@,
            final(self).messages@ == old(self).messages@,
            final(self).status == old(self).status,
            old(self).selected < old(self).conversations.len() ==> final(self).selected < final(self).conversations.len(),
            match key {
                Key::Esc => outcome is Quit && *final(self) == *old(self),
                Key::Up => outcome is Continue && final(self).input == old(self).input && final(self).selected
                    == if old(self).selected == 0 {
                    0
                } else {
                    old(self).selected - 1
                },
                Key::Down => outcome is Continue && final(self).input == old(self).input && final(self).selected
                    == if old(self).conversations.len() == 0 {
                    old(self).selected as int
                } else if old(self).selected + 1 <= old(self).conversations.len() - 1 {
                    old(self).selected + 1
                } else {
                    old(self).conversations.len() - 1
                },
                Key::Backspace => outcome is Continue && final(self).selected == old(self).selected && final(self).input@ == if old(self).input@.len() == 0 {
                    old(self).input@
                } else {
                    old(self).input@.drop_last()
                },
                Key::Enter => final(self).selected == old(self).selected && if selected_id(*old(self)) is Some
                    && trim_spec(old(self).input@).len() > 0 {
                    &&& outcome matches KeyOutcome::Send(ClientCommand::SendTextMessage { conversation_id, text })
                        && conversation_id == selected_id(*old(self)).unwrap() && text@ == trim_spec(
                        old(self).input@,
                    )
                    &&& final(self).input@.len() == 0
                } else {
                    outcome is Continue && final(self).input == old(self).input
                },
                Key::Char(c) => outcome is Continue && final(self).selected == old(self).selected && final(self).input@ == old(self).input@.push(c),
                Key::Other => outcome is Continue && *final(self) == *old(self),
            },
    {
        match key {
            Key::Esc => KeyOutcome::Quit,
            Key::Up => {
                if self.selected > 0 {
                    self.selected = self.selected - 1;
                }
                KeyOutcome::Continue
            },
            Key::Down => {
                if self.conversations.len() > 0 {
                    let next = self.selected + 1;
                    let last = self.conversations.len() - 1;
                    self.selected = if next <= last {
                        next
                    } else {
                        last
                    };
                }
                KeyOutcome::Continue
            },
            Key::Backspace => {
                self.input.pop();
                KeyOutcome::Continue
            },
            Key::Enter => {
                match selected_conversation(self) {
                    Some(conversation_id) => {
                        let text = trim_text(self.input.as_str());
                        if text.as_str().unicode_len() > 0 {
                            self.input = String::new();
                            KeyOutcome::Send(ClientCommand::SendTextMessage { conversation_id, text })
                        } else {
                            KeyOutcome::Continue
                        }
                    },
                    None => KeyOutcome::Continue,
                }
            },
            Key::Char(c) => {
                self.input.push(c);
                KeyOutcome::Continue
            },
            Key::Other => KeyOutcome::Continue,
        }
    }
}

/// The mark before a conversation in the list: `>` for the selected one.
pub fn conversation_marker(index: usize, selected: usize) -> (marker: &'static str)
    ensures
        marker@ == if index == selected {
            ">"@
        } else {
            " "@
        },
{
    if index == selected {
        ">"
    } else {
        " "
    }
}

/// The lines that show the messages: for each, the sender followed by a
/// colon, the message's text, and an empty line.
pub fn message_lines(messages: &[MessageView]) -> (lines: Vec<String>)
    requires
        3 * messages@.len() <= usize::MAX,
    ensures
        lines.len() == 3 * messages@.len(),
        forall|i: int|
            0 <= i < messages@.len() ==> {
                &&& (#[trigger] lines@[3 * i])@ == messages@[i].sender_id@ + ":"@
                &&& lines@[3 * i + 1]@ == nodes_text(messages@[i].nodes@)
                &&& lines@[3 * i + 2]@.len() == 0
            },
{
    let mut lines: Vec<String> = Vec::new();
    for i in 0..messages.len()
        invariant
            lines.len() == 3 * i,
            forall|j: int|
                0 <= j < i ==> {
                    &&& (#[trigger] lines@[3 * j])@ == messages@[j].sender_id@ + ":"@
                    &&& lines@[3 * j + 1]@ == nodes_text(messages@[j].nodes@)
                    &&& lines@[3 * j + 2]@.len() == 0
                },
    {
        let header = String::from_str(messages[i].sender_id.as_str()).concat(":");
        let text = PlainTextRenderer::render(messages[i].nodes.as_slice());
        let ghost before = lines@;
        lines.push(header);
        lines.push(text);
        lines.push(String::new());
        assert forall|j: int| 0 <= j < i + 1 implies {
            &&& (#[trigger] lines@[3 * j])@ == messages@[j].sender_id@ + ":"@
            &&& lines@[3 * j + 1]@ == nodes_text(messages@[j].nodes@)
            &&& lines@[3 * j + 2]@.len() == 0
        } by {
            if j < i {
                assert(lines@[3 * j] == before[3 * j]);
                assert(lines@[3 * j + 1] == before[3 * j + 1]);
                assert(lines@[3 * j + 2] == before[3 * j + 2]);
            }
        }
    }
    lines
}

/// The status line: the status, then the keys and the variable that
/// configures the endpoint.
pub fn status_line(status: &str) -> (line: String)
    ensures
        line@ == status@ + " | Esc quit | Enter send | NAPCAT_WS configures endpoint"@,
{
    String::from_str(status).concat(" | Esc quit | Enter send | NAPCAT_WS configures endpoint")
}

} // verus!
