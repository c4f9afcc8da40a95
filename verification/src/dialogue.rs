//! Per-conversation dialogue state: the states of the guided "add a
//! transaction" flow and the registry that holds at most one state per
//! conversation. A conversation with no entry is idle.

use vstd::prelude::*;
use crate::amount::Amount;
use crate::assoc::assoc_map;
use crate::assoc::lemma_assoc_at;
use crate::assoc::lemma_assoc_contains;
use crate::assoc::lemma_assoc_remove;
use crate::assoc::unique_keys;

verus! {

/// The dialogue state of one conversation. `AddStart` is idle: no flow is
/// active. The other states each await one field of the new transaction.
#[derive(Debug, PartialEq)]
pub enum State {
    AddStart,
    AddReceiveTitle,
    AddReceiveAmount { title: String },
    AddReceiveDescription { title: String, amount: Amount },
}

/// The mathematical value of a dialogue state.
pub ghost enum StateView {
    AddStart,
    AddReceiveTitle,
    AddReceiveAmount { title: Seq<char> },
    AddReceiveDescription { title: Seq<char>, pence: int },
}

impl View for State {
    type V = StateView;

    open spec fn view(&self) -> StateView {
        match self {
            State::AddStart => StateView::AddStart,
            State::AddReceiveTitle => StateView::AddReceiveTitle,
            State::AddReceiveAmount { title } => StateView::AddReceiveAmount { title: title@ },
            State::AddReceiveDescription { title, amount } => StateView::AddReceiveDescription {
                title: title@,
                pence: amount.pence as int,
            },
        }
    }
}

impl State {
    /// An identical copy.
    pub fn duplicate(&self) -> (r: State)
        ensures
            r@ == self@,
    {
        match self {
            State::AddStart => State::AddStart,
            State::AddReceiveTitle => State::AddReceiveTitle,
            State::AddReceiveAmount { title } => State::AddReceiveAmount { title: title.clone() },
            State::AddReceiveDescription { title, amount } => State::AddReceiveDescription {
                title: title.clone(),
                amount: *amount,
            },
        }
    }
}

/// The entries of the dialogue registry, as key/value pairs.
pub open spec fn state_entries(s: Seq<(i64, State)>) -> Seq<(int, StateView)> {
    s.map_values(|p: (i64, State)| (p.0 as int, p.1@))
}

/// The dialogue registry: at most one state per conversation id.
pub struct Dialogues {
    entries: Vec<(i64, State)>,
}

impl Dialogues {
    /// The stored states: conversation id to state value.
    pub closed spec fn states(self) -> Map<int, StateView> {
        assoc_map(state_entries(self.entries@))
    }

    /// The dialogue state of conversation `chat`: idle when none is stored.
    pub open spec fn state_of(self, chat: int) -> StateView {
        if self.states().contains_key(chat) {
            self.states()[chat]
        } else {
            StateView::AddStart
        }
    }

    /// Well-formedness: one entry per conversation id.
    pub closed spec fn wf(self) -> bool {
        unique_keys(state_entries(self.entries@))
    }

    /// An empty registry: every conversation is idle.
    pub fn new() -> (r: Dialogues)
        ensures
            r.wf(),
            r.states() == Map::<int, StateView>::empty(),
            forall|c: int| r.state_of(c) == StateView::AddStart,
    {
        let r = Dialogues { entries: Vec::new() };
        proof {
            assert(r.states() =~= Map::<int, StateView>::empty());
        }
        r
    }

    /// The state of conversation `chat_id`, idle when none is stored.
    #[verifier::loop_isolation(false)]
    pub fn get(&self, chat_id: i64) -> (r: State)
        requires
            self.wf(),
        ensures
            r@ == self.state_of(chat_id as int),
    {
        let n = self.entries.len();
        let mut i: usize = 0;
        while i < n
            invariant
                i <= n,
                forall|k: int| 0 <= k < i ==> (#[trigger] self.entries@[k]).0 != chat_id,
            decreases n - i,
        {
            if self.entries[i].0 == chat_id {
                proof {
                    lemma_assoc_at(state_entries(self.entries@), i as int);
                }
                return self.entries[i].1.duplicate();
            }
            i = i + 1;
        }
        proof {
            lemma_assoc_contains(state_entries(self.entries@), chat_id as int);
        }
        State::AddStart
    }

    /// Stores `state` for conversation `chat_id`; every other conversation is
    /// untouched.
    #[verifier::loop_isolation(false)]
    pub fn update(&mut self, chat_id: i64, state: State)
        requires
            old(self).wf(),
        ensures
            final(self).wf(),
            final(self).states() == old(self).states().insert(chat_id as int, state@),
            final(self).state_of(chat_id as int) == state@,
            forall|c: int|
                c != chat_id as int ==> final(self).state_of(c) == old(self).state_of(c),
    {
        let ghost v = state@;
        let n = self.entries.len();
        let mut found = false;
        let mut idx: usize = 0;
        let mut i: usize = 0;
        while i < n
            invariant
                i <= n,
                !found ==> forall|k: int| 0 <= k < i ==> (#[trigger] self.entries@[k]).0
                    != chat_id,
                found ==> idx < n && self.entries@[idx as int].0 == chat_id,
            decreases n - i,
        {
            if !found && self.entries[i].0 == chat_id {
                found = true;
                idx = i;
            }
            i = i + 1;
        }
        let ghost entries = state_entries(self.entries@);
        if found {
            proof {
                lemma_assoc_remove(entries, idx as int);
                assert(state_entries(self.entries@.remove(idx as int)) =~= entries.remove(
                    idx as int,
                ));
            }
            let _ = self.entries.remove(idx);
            self.entries.push((chat_id, state));
            proof {
                let removed = entries.remove(idx as int);
                let after = state_entries(self.entries@);
                assert(after.drop_last() =~= removed);
                assert(after.last() == (chat_id as int, v));
                assert(entries[idx as int].0 == chat_id as int);
                assert forall|a: int|
                    0 <= a < removed.len() implies (#[trigger] removed[a]).0 != (
                chat_id as int) by {
                    if a < idx as int {
                        assert(removed[a] == entries[a]);
                    } else {
                        assert(removed[a] == entries[a + 1]);
                    }
                }
                assert forall|a: int, b: int|
                    0 <= a < b < after.len() implies (#[trigger] after[a]).0 != (
                #[trigger] after[b]).0 by {
                    if b == after.len() - 1 {
                        assert(after[a] == removed[a]);
                    } else {
                        assert(after[a] == removed[a] && after[b] == removed[b]);
                    }
                }
                assert(assoc_map(after) == assoc_map(removed).insert(chat_id as int, v));
                assert(assoc_map(entries).remove(chat_id as int).insert(chat_id as int, v)
                    =~= assoc_map(entries).insert(chat_id as int, v));
            }
        } else {
            self.entries.push((chat_id, state));
            proof {
                let after = state_entries(self.entries@);
                assert(after.drop_last() =~= entries);
                assert(after.last() == (chat_id as int, v));
                assert forall|a: int, b: int|
                    0 <= a < b < after.len() implies (#[trigger] after[a]).0 != (
                #[trigger] after[b]).0 by {
                    if b == after.len() - 1 {
                        assert(after[a] == entries[a]);
                        assert(old(self).entries@[a].0 != chat_id);
                    } else {
                        assert(after[a] == entries[a] && after[b] == entries[b]);
                    }
                }
            }
        }
    }

    /// Ends conversation `chat_id`'s dialogue: the conversation is idle again;
    /// every other conversation is untouched.
    #[verifier::loop_isolation(false)]
    pub fn exit(&mut self, chat_id: i64)
        requires
            old(self).wf(),
        ensures
            final(self).wf(),
            final(self).states() == old(self).states().remove(chat_id as int),
            final(self).state_of(chat_id as int) == StateView::AddStart,
            forall|c: int|
                c != chat_id as int ==> final(self).state_of(c) == old(self).state_of(c),
    {
        let n = self.entries.len();
        let mut i: usize = 0;
        while i < n
            invariant
                i <= n,
                n == self.entries@.len(),
                self.entries@ == old(self).entries@,
                forall|k: int| 0 <= k < i ==> (#[trigger] self.entries@[k]).0 != chat_id,
            decreases n - i,
        {
            if self.entries[i].0 == chat_id {
                proof {
                    let entries = state_entries(self.entries@);
                    assert(entries[i as int].0 == chat_id as int);
                    lemma_assoc_remove(entries, i as int);
                    assert(state_entries(self.entries@.remove(i as int)) =~= entries.remove(
                        i as int,
                    ));
                }
                let _ = self.entries.remove(i);
                return ;
            }
            i = i + 1;
        }
        proof {
            lemma_assoc_contains(state_entries(self.entries@), chat_id as int);
            assert(self.states().remove(chat_id as int) =~= self.states());
        }
    }
}

} // verus!
