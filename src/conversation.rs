//! The memory of one chat session.
use vstd::prelude::*;

use crate::text::{join_strings, joined, views};

verus! {

#[derive(Clone, Copy, Debug, PartialEq, Eq, Structural)]
pub enum Role {
    User,
    Assistant,
}

/// One message of a conversation.
pub struct Turn {
    pub role: Role,
    pub text: String,
}

impl View for Turn {
    type V = (Role, Seq<char>);

    open spec fn view(&self) -> (Role, Seq<char>) {
        (self.role, self.text@)
    }
}

/// The completed turns of one session, oldest first. It only grows, by a
/// question and its answer at a time.
pub struct ConversationState {
    pub turns: Vec<Turn>,
}

impl View for ConversationState {
    type V = Seq<(Role, Seq<char>)>;

    open spec fn view(&self) -> Seq<(Role, Seq<char>)> {
        self.turns@.map_values(|t: Turn| t@)
    }
}

/// How a role is named in a transcript.
pub open spec fn role_label(role: Role) -> Seq<char> {
    match role {
        Role::User => "Human"@,
        Role::Assistant => "AI"@,
    }
}

/// One transcript line per turn: the role's label, ": ", and the text.
pub open spec fn transcript_lines(turns: Seq<(Role, Seq<char>)>) -> Seq<Seq<char>> {
    turns.map_values(|t: (Role, Seq<char>)| role_label(t.0) + ": "@ + t.1)
}

/// The turns as a transcript, one line each.
pub open spec fn transcript(turns: Seq<(Role, Seq<char>)>) -> Seq<char> {
    joined(transcript_lines(turns), "\n"@)
}

impl ConversationState {
    /// A session with no turns yet.
    pub fn new() -> (r: ConversationState)
        ensures
            r@.len() == 0,
    {
        let r = ConversationState { turns: Vec::new() };
        assert(r@ =~= Seq::<(Role, Seq<char>)>::empty());
        r
    }

    pub fn len(&self) -> (r: usize)
        ensures
            r == self@.len(),
    {
        self.turns.len()
    }

    pub fn is_empty(&self) -> (r: bool)
        ensures
            r == (self@.len() == 0),
    {
        self.turns.len() == 0
    }

    /// Appends a completed turn: the question, then its answer.
    pub fn record(&mut self, question: String, answer: String)
        ensures
            final(self)@ == old(self)@.push((Role::User, question@)).push(
                (Role::Assistant, answer@),
            ),
    {
        let ghost before = self@;
        self.turns.push(Turn { role: Role::User, text: question });
        self.turns.push(Turn { role: Role::Assistant, text: answer });
        assert(self@ =~= before.push((Role::User, question@)).push((Role::Assistant, answer@)));
    }

    /// The conversation so far as a transcript.
    pub fn transcript(&self) -> (r: String)
        ensures
            r@ == transcript(self@),
    {
        let mut lines: Vec<String> = Vec::new();
        let n = self.turns.len();
        let mut i: usize = 0;
        while i < n
            invariant
                n == self.turns@.len(),
                i <= n,
                lines@.len() == i,
                forall|j: int|
                    0 <= j < i ==> (#[trigger] lines@[j])@ == transcript_lines(self@)[j],
            decreases n - i,
        {
            let turn = &self.turns[i];
            let mut line = match turn.role {
                Role::User => String::from_str("Human"),
                Role::Assistant => String::from_str("AI"),
            };
            line.append(": ");
            line.append(turn.text.as_str());
            assert(self@[i as int] == turn@);
            lines.push(line);
            i = i + 1;
        }
        assert(views(lines@) =~= transcript_lines(self@));
        join_strings(&lines, "\n")
    }
}

} // verus!
