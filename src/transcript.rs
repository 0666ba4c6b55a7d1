use vstd::prelude::*;
use crate::turn::{Role, Turn, TurnView};

verus! {

/// The instruction that opens every conversation.
pub const SYSTEM_PROMPT: &'static str = "You are a helpful assistant. Create response against your request";

pub open spec fn system_turn() -> TurnView {
    (Role::System, SYSTEM_PROMPT@)
}

/// A well-formed transcript: the system turn first and nowhere else, then
/// user and assistant turns in alternation, a user turn first.
pub open spec fn transcript_wf(v: Seq<TurnView>) -> bool {
    &&& v.len() >= 1
    &&& v[0] == system_turn()
    &&& forall|i: int|
        1 <= i < v.len() ==> #[trigger] v[i].0 == (if i % 2 == 1 {
            Role::User
        } else {
            Role::Assistant
        })
}

/// The conversation so far, in the order in which it happened.
#[derive(Clone, Debug)]
pub struct Transcript {
    turns: Vec<Turn>,
}

impl View for Transcript {
    type V = Seq<TurnView>;

    closed spec fn view(&self) -> Seq<TurnView> {
        self.turns@.map_values(|t: Turn| t@)
    }
}

impl Transcript {
    pub open spec fn wf(&self) -> bool {
        transcript_wf(self@)
    }

    /// A transcript that holds the system turn alone.
    pub fn new() -> (r: Transcript)
        ensures
            r@ == seq![system_turn()],
            r.wf(),
    {
        let turns = vec![Turn::System(String::from_str(SYSTEM_PROMPT))];
        let r = Transcript { turns };
        assert(r@ =~= seq![system_turn()]);
        r
    }

    fn push(&mut self, turn: Turn)
        ensures
            final(self)@ == old(self)@.push(turn@),
    {
        self.turns.push(turn);
        assert(self@ =~= old(self)@.push(turn@));
    }

    /// Appends the user's turn; the transcript must end with an answer.
    pub fn push_user(&mut self, text: String) -> (r: Turn)
        requires
            old(self).wf(),
            old(self)@.len() % 2 == 1,
        ensures
            r@ == (Role::User, text@),
            final(self)@ == old(self)@.push(r@),
            final(self).wf(),
    {
        let turn = Turn::User(text);
        let r = turn.duplicate();
        self.push(turn);
        r
    }

    /// Appends the assistant's answer to the user's last turn.
    pub fn push_assistant(&mut self, text: String) -> (r: Turn)
        requires
            old(self).wf(),
            old(self)@.len() % 2 == 0,
        ensures
            r@ == (Role::Assistant, text@),
            final(self)@ == old(self)@.push(r@),
            final(self).wf(),
    {
        let turn = Turn::Assistant(text);
        let r = turn.duplicate();
        self.push(turn);
        r
    }

    pub fn len(&self) -> (r: usize)
        ensures
            r == self@.len(),
    {
        self.turns.len()
    }

    pub fn get(&self, i: usize) -> (r: &Turn)
        requires
            i < self@.len(),
        ensures
            r@ == self@[i as int],
    {
        &self.turns[i]
    }

    /// Copies of all turns, in order.
    pub fn turns(&self) -> (r: Vec<Turn>)
        ensures
            r@.map_values(|t: Turn| t@) == self@,
    {
        let mut r: Vec<Turn> = Vec::new();
        let mut i: usize = 0;
        while i < self.turns.len()
            invariant
                i <= self.turns@.len(),
                r@.map_values(|t: Turn| t@) =~= self@.subrange(0, i as int),
            decreases self.turns@.len() - i,
        {
            let t = self.turns[i].duplicate();
            proof {
                assert(self@[i as int] == self.turns@[i as int]@);
                assert(self@.subrange(0, i + 1) =~= self@.subrange(0, i as int).push(t@));
            }
            r.push(t);
            assert(r@.map_values(|t: Turn| t@) =~= self@.subrange(0, i + 1));
            i = i + 1;
        }
        assert(self@.subrange(0, i as int) =~= self@);
        r
    }
}

} // verus!
