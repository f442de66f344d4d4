//! What the coordinator posts to the issue that asked for an experiment.

use vstd::prelude::*;
use vstd::string::StringExecFns;

verus! {

/// The label that a message puts on the issue.
#[derive(Debug, PartialEq, Eq, Clone, Copy, Hash, Structural)]
pub enum Label {
    ExperimentQueued,
    ExperimentCompleted,
}

/// One line of a message: a picture, by its name, and a text.
#[derive(Debug, PartialEq, Eq)]
pub struct Line {
    pub emoji: String,
    pub content: String,
}

/// A message: lines, notes below them, and a label to set.
#[derive(Debug, PartialEq, Eq)]
pub struct Message {
    pub lines: Vec<Line>,
    pub notes: Vec<Line>,
    pub new_label: Option<Label>,
}

/// What a [`Line`] holds, as plain sequences: the picture and the text.
pub open spec fn line_view(line: Line) -> (Seq<char>, Seq<char>) {
    (line.emoji@, line.content@)
}

/// What the lines of a list hold.
pub open spec fn lines_view(lines: Seq<Line>) -> Seq<(Seq<char>, Seq<char>)> {
    lines.map_values(|line: Line| line_view(line))
}

/// What a [`Message`] holds, as plain values.
pub struct MessageView {
    pub lines: Seq<(Seq<char>, Seq<char>)>,
    pub notes: Seq<(Seq<char>, Seq<char>)>,
    pub new_label: Option<Label>,
}

impl View for Message {
    type V = MessageView;

    open spec fn view(&self) -> MessageView {
        MessageView {
            lines: lines_view(self.lines@),
            notes: lines_view(self.notes@),
            new_label: self.new_label,
        }
    }
}

impl Message {
    /// A message without lines.
    pub fn new() -> (message: Message)
        ensures
            message@ == (MessageView {
                lines: Seq::empty(),
                notes: Seq::empty(),
                new_label: None,
            }),
    {
        let message = Message { lines: Vec::new(), notes: Vec::new(), new_label: None };
        assert(message@.lines =~= Seq::empty());
        assert(message@.notes =~= Seq::empty());
        message
    }

    /// The message with one more line.
    pub fn line(self, emoji: &str, content: String) -> (message: Message)
        ensures
            message@ == (MessageView {
                lines: self@.lines.push((emoji@, content@)),
                ..self@
            }),
    {
        let mut message = self;
        message.lines.push(Line { emoji: String::from_str(emoji), content });
        assert(message@.lines =~= self@.lines.push((emoji@, content@)));
        message
    }

    /// The message with one more note.
    pub fn note(self, emoji: &str, content: String) -> (message: Message)
        ensures
            message@ == (MessageView {
                notes: self@.notes.push((emoji@, content@)),
                ..self@
            }),
    {
        let mut message = self;
        message.notes.push(Line { emoji: String::from_str(emoji), content });
        assert(message@.notes =~= self@.notes.push((emoji@, content@)));
        message
    }

    /// The message with a label to set.
    pub fn set_label(self, label: Label) -> (message: Message)
        ensures
            message@ == (MessageView { new_label: Some(label), ..self@ }),
    {
        let mut message = self;
        message.new_label = Some(label);
        message
    }
}

/// A message to post, and the address of the issue to post it to.
#[derive(Debug, PartialEq, Eq)]
pub struct Notification {
    pub api_url: String,
    pub message: Message,
}

} // verus!
