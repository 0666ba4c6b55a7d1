use vstd::prelude::*;

verus! {

/// Who speaks a turn.
#[derive(Clone, Copy, Debug, PartialEq, Eq, Structural)]
pub enum Role {
    System,
    User,
    Assistant,
}

/// One message of a conversation: its speaker and its text.
#[derive(Clone, Debug, PartialEq, Eq)]
pub enum Turn {
    System(String),
    User(String),
    Assistant(String),
}

/// A turn as a value: its speaker and the characters of its text.
pub type TurnView = (Role, Seq<char>);

impl View for Turn {
    type V = TurnView;

    open spec fn view(&self) -> TurnView {
        match self {
            Turn::System(t) => (Role::System, t@),
            Turn::User(t) => (Role::User, t@),
            Turn::Assistant(t) => (Role::Assistant, t@),
        }
    }
}

impl Turn {
    /// Builds the turn of the given speaker and text.
    pub fn from_parts(role: Role, text: String) -> (r: Turn)
        ensures
            r@ == (role, text@),
    {
        match role {
            Role::System => Turn::System(text),
            Role::User => Turn::User(text),
            Role::Assistant => Turn::Assistant(text),
        }
    }

    pub fn role(&self) -> (r: Role)
        ensures
            r == self@.0,
    {
        match self {
            Turn::System(_) => Role::System,
            Turn::User(_) => Role::User,
            Turn::Assistant(_) => Role::Assistant,
        }
    }

    pub fn text(&self) -> (r: &String)
        ensures
            r@ == self@.1,
    {
        match self {
            Turn::System(t) => t,
            Turn::User(t) => t,
            Turn::Assistant(t) => t,
        }
    }

    /// A copy of the turn with the same speaker and text.
    pub fn duplicate(&self) -> (r: Turn)
        ensures
            r@ == self@,
    {
        Turn::from_parts(self.role(), self.text().clone())
    }
}

} // verus!
