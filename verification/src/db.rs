//! The ledger store: transactions and known users, scoped per conversation.
//!
//! Transactions are kept in insertion order and removed only by a whole-
//! conversation reset. Users are upserted: a supplied display name overwrites,
//! an absent one only makes sure the row exists and never clears a name.

use vstd::prelude::*;
use crate::amount::Amount;
use crate::assoc::assoc_map;
use crate::assoc::lemma_assoc_at;
use crate::assoc::lemma_assoc_contains;
use crate::assoc::lemma_assoc_remove;
use crate::assoc::unique_keys;

verus! {

/// One recorded expense: the contributing user, a title, an exact amount and
/// an optional description (the empty string means "none").
#[derive(Debug, PartialEq)]
pub struct Transaction {
    pub user_id: i64,
    pub title: String,
    pub amount: Amount,
    pub description: String,
}

/// The mathematical value of a transaction.
pub ghost struct TransactionView {
    pub user_id: int,
    pub title: Seq<char>,
    pub pence: int,
    pub description: Seq<char>,
}

impl View for Transaction {
    type V = TransactionView;

    open spec fn view(&self) -> TransactionView {
        TransactionView {
            user_id: self.user_id as int,
            title: self.title@,
            pence: self.amount.pence as int,
            description: self.description@,
        }
    }
}

impl Transaction {
    /// An identical copy.
    pub fn duplicate(&self) -> (r: Transaction)
        ensures
            r@ == self@,
    {
        Transaction {
            user_id: self.user_id,
            title: self.title.clone(),
            amount: self.amount,
            description: self.description.clone(),
        }
    }
}

/// The values of a sequence of transactions.
pub open spec fn tx_views(s: Seq<Transaction>) -> Seq<TransactionView> {
    s.map_values(|t: Transaction| t@)
}

/// The values of a sequence of ledger rows.
pub open spec fn row_views(s: Seq<(i64, Transaction)>) -> Seq<(int, TransactionView)> {
    s.map_values(|p: (i64, Transaction)| (p.0 as int, p.1@))
}

/// Whether a ledger row belongs to conversation `chat`.
pub open spec fn same_chat(chat: int) -> spec_fn((int, TransactionView)) -> bool {
    |p: (int, TransactionView)| p.0 == chat
}

/// Whether a ledger row belongs to some other conversation than `chat`.
pub open spec fn other_chat(chat: int) -> spec_fn((int, TransactionView)) -> bool {
    |p: (int, TransactionView)| p.0 != chat
}

/// The transactions of conversation `chat` in `l`, in order.
pub open spec fn txs_of(l: Seq<(int, TransactionView)>, chat: int) -> Seq<TransactionView> {
    l.filter(same_chat(chat)).map_values(|p: (int, TransactionView)| p.1)
}

/// `l` with every transaction of conversation `chat` removed.
pub open spec fn reset_ledger(l: Seq<(int, TransactionView)>, chat: int) -> Seq<
    (int, TransactionView),
> {
    l.filter(other_chat(chat))
}

/// The value of an optional owned display name.
pub open spec fn opt_name_view(o: Option<String>) -> Option<Seq<char>> {
    match o {
        Some(s) => Some(s@),
        None => None,
    }
}

/// The value of an optional borrowed display name.
pub open spec fn opt_str_view(o: Option<&str>) -> Option<Seq<char>> {
    match o {
        Some(s) => Some(s@),
        None => None,
    }
}

/// The entries of the user table, as key/value pairs.
pub open spec fn user_entries(s: Seq<(i64, Option<String>)>) -> Seq<(int, Option<Seq<char>>)> {
    s.map_values(|p: (i64, Option<String>)| (p.0 as int, opt_name_view(p.1)))
}

/// `m` after an upsert of `uid`: a supplied name overwrites; an absent one
/// only makes sure the key exists and never clears a stored name.
pub open spec fn upsert_users(
    m: Map<int, Option<Seq<char>>>,
    uid: int,
    name: Option<Seq<char>>,
) -> Map<int, Option<Seq<char>>> {
    match name {
        Some(n) => m.insert(uid, Some(n)),
        None => if m.contains_key(uid) {
            m
        } else {
            m.insert(uid, None)
        },
    }
}

/// The display name stored for `uid`: `None` both when no row exists and when
/// the row carries no name.
pub open spec fn name_in(m: Map<int, Option<Seq<char>>>, uid: int) -> Option<Seq<char>> {
    if m.contains_key(uid) {
        m[uid]
    } else {
        None
    }
}

/// Pushing an element onto a sequence extends its filtered form by that
/// element exactly when the element passes the predicate.
pub proof fn lemma_filter_push<A>(s: Seq<A>, pred: spec_fn(A) -> bool, x: A)
    ensures
        s.push(x).filter(pred) == if pred(x) {
            s.filter(pred).push(x)
        } else {
            s.filter(pred)
        },
{
    reveal(Seq::filter);
    assert(s.push(x).drop_last() =~= s);
    assert(s.push(x).last() == x);
}

/// An empty ledger yields nothing, whatever the conversation.
pub proof fn lemma_txs_of_empty(chat: int)
    ensures
        txs_of(Seq::<(int, TransactionView)>::empty(), chat) == Seq::<TransactionView>::empty(),
        reset_ledger(Seq::<(int, TransactionView)>::empty(), chat) == Seq::<
            (int, TransactionView),
        >::empty(),
{
    reveal(Seq::filter);
    assert(txs_of(Seq::<(int, TransactionView)>::empty(), chat) =~= Seq::<
        TransactionView,
    >::empty());
    assert(reset_ledger(Seq::<(int, TransactionView)>::empty(), chat) =~= Seq::<
        (int, TransactionView),
    >::empty());
}

/// How one appended row changes what a conversation yields and what a reset
/// keeps.
pub proof fn lemma_txs_of_push(l: Seq<(int, TransactionView)>, x: (int, TransactionView), chat: int)
    ensures
        txs_of(l.push(x), chat) == if x.0 == chat {
            txs_of(l, chat).push(x.1)
        } else {
            txs_of(l, chat)
        },
        reset_ledger(l.push(x), chat) == if x.0 != chat {
            reset_ledger(l, chat).push(x)
        } else {
            reset_ledger(l, chat)
        },
{
    lemma_filter_push(l, same_chat(chat), x);
    lemma_filter_push(l, other_chat(chat), x);
    if x.0 == chat {
        assert(txs_of(l.push(x), chat) =~= txs_of(l, chat).push(x.1));
    } else {
        assert(txs_of(l.push(x), chat) =~= txs_of(l, chat));
    }
}

/// The ledger store: per-conversation transactions and the known users.
pub struct DB {
    rows: Vec<(i64, Transaction)>,
    users: Vec<(i64, Option<String>)>,
}

impl DB {
    /// The recorded transactions, each with its conversation id, in insertion
    /// order.
    pub closed spec fn ledger(self) -> Seq<(int, TransactionView)> {
        row_views(self.rows@)
    }

    /// The known users: user id to optional display name.
    pub closed spec fn users_map(self) -> Map<int, Option<Seq<char>>> {
        assoc_map(user_entries(self.users@))
    }

    /// The display name stored for `uid`, `None` when there is none.
    pub open spec fn username_of(self, uid: int) -> Option<Seq<char>> {
        name_in(self.users_map(), uid)
    }

    /// Well-formedness: one row per user id.
    pub closed spec fn wf(self) -> bool {
        unique_keys(user_entries(self.users@))
    }

    /// An empty store.
    pub fn new() -> (r: DB)
        ensures
            r.wf(),
            r.ledger() == Seq::<(int, TransactionView)>::empty(),
            r.users_map() == Map::<int, Option<Seq<char>>>::empty(),
    {
        let r = DB { rows: Vec::new(), users: Vec::new() };
        proof {
            assert(r.ledger() =~= Seq::<(int, TransactionView)>::empty());
            assert(r.users_map() =~= Map::<int, Option<Seq<char>>>::empty());
        }
        r
    }

    /// Appends one transaction to conversation `chat_id`'s ledger; every other
    /// conversation and the user table are untouched.
    pub fn add_transaction(&mut self, chat_id: i64, transaction: Transaction)
        requires
            old(self).wf(),
        ensures
            final(self).wf(),
            final(self).ledger() == old(self).ledger().push((chat_id as int, transaction@)),
            final(self).users_map() == old(self).users_map(),
    {
        let ghost t = transaction@;
        self.rows.push((chat_id, transaction));
        proof {
            assert(self.ledger() =~= old(self).ledger().push((chat_id as int, t)));
        }
    }

    /// The transactions of conversation `chat_id`, in insertion order; the
    /// empty vector, not an error, when there are none.
    #[verifier::loop_isolation(false)]
    pub fn get_transactions(&self, chat_id: i64) -> (r: Vec<Transaction>)
        ensures
            tx_views(r@) == txs_of(self.ledger(), chat_id as int),
    {
        let mut r: Vec<Transaction> = Vec::new();
        let mut i: usize = 0;
        proof {
            lemma_txs_of_empty(chat_id as int);
            assert(row_views(self.rows@.take(0)) =~= Seq::<(int, TransactionView)>::empty());
            assert(tx_views(r@) =~= Seq::<TransactionView>::empty());
        }
        while i < self.rows.len()
            invariant
                i <= self.rows@.len(),
                tx_views(r@) == txs_of(row_views(self.rows@.take(i as int)), chat_id as int),
            decreases self.rows@.len() - i,
        {
            let row = &self.rows[i];
            let ghost prefix = row_views(self.rows@.take(i as int));
            let ghost entry = (row.0 as int, row.1@);
            proof {
                assert(row_views(self.rows@.take(i + 1 as int)) =~= prefix.push(entry));
                lemma_txs_of_push(prefix, entry, chat_id as int);
            }
            if row.0 == chat_id {
                r.push(row.1.duplicate());
                proof {
                    assert(tx_views(r@) =~= txs_of(prefix, chat_id as int).push(entry.1));
                }
            }
            i = i + 1;
        }
        proof {
            assert(self.rows@.take(self.rows@.len() as int) =~= self.rows@);
        }
        r
    }

    /// Deletes every transaction of conversation `chat_id`; idempotent, and
    /// every other conversation and the user table are untouched.
    #[verifier::loop_isolation(false)]
    pub fn reset_chat(&mut self, chat_id: i64)
        requires
            old(self).wf(),
        ensures
            final(self).wf(),
            final(self).ledger() == reset_ledger(old(self).ledger(), chat_id as int),
            final(self).users_map() == old(self).users_map(),
    {
        let mut kept: Vec<(i64, Transaction)> = Vec::new();
        let mut i: usize = 0;
        proof {
            lemma_txs_of_empty(chat_id as int);
            assert(row_views(self.rows@.take(0)) =~= Seq::<(int, TransactionView)>::empty());
            assert(row_views(kept@) =~= Seq::<(int, TransactionView)>::empty());
        }
        while i < self.rows.len()
            invariant
                i <= self.rows@.len(),
                row_views(kept@) == reset_ledger(
                    row_views(self.rows@.take(i as int)),
                    chat_id as int,
                ),
            decreases self.rows@.len() - i,
        {
            let row = &self.rows[i];
            let ghost prefix = row_views(self.rows@.take(i as int));
            let ghost entry = (row.0 as int, row.1@);
            proof {
                assert(row_views(self.rows@.take(i + 1 as int)) =~= prefix.push(entry));
                lemma_txs_of_push(prefix, entry, chat_id as int);
            }
            if row.0 != chat_id {
                kept.push((row.0, row.1.duplicate()));
                proof {
                    assert(row_views(kept@) =~= reset_ledger(prefix, chat_id as int).push(entry));
                }
            }
            i = i + 1;
        }
        proof {
            assert(self.rows@.take(self.rows@.len() as int) =~= self.rows@);
        }
        self.rows = kept;
    }

    /// Upserts user `user_id`: a supplied display name is stored, an absent
    /// one only makes sure the row exists; a stored name is never cleared.
    #[verifier::loop_isolation(false)]
    pub fn update_user(&mut self, user_id: i64, username: Option<&str>)
        requires
            old(self).wf(),
        ensures
            final(self).wf(),
            final(self).ledger() == old(self).ledger(),
            final(self).users_map() == upsert_users(
                old(self).users_map(),
                user_id as int,
                opt_str_view(username),
            ),
    {
        let n = self.users.len();
        let mut found = false;
        let mut idx: usize = 0;
        let mut i: usize = 0;
        while i < n
            invariant
                i <= n,
                !found ==> forall|k: int| 0 <= k < i ==> (#[trigger] self.users@[k]).0 != user_id,
                found ==> idx < n && self.users@[idx as int].0 == user_id,
            decreases n - i,
        {
            if !found && self.users[i].0 == user_id {
                found = true;
                idx = i;
            }
            i = i + 1;
        }
        let ghost entries = user_entries(self.users@);
        match username {
            Some(name) => {
                if found {
                    proof {
                        lemma_assoc_remove(entries, idx as int);
                        assert(user_entries(self.users@.remove(idx as int)) =~= entries.remove(
                            idx as int,
                        ));
                    }
                    let _ = self.users.remove(idx);
                    self.users.push((user_id, Some(name.to_owned())));
                    proof {
                        let removed = entries.remove(idx as int);
                        let after = user_entries(self.users@);
                        assert(after.drop_last() =~= removed);
                        assert(after.last() == (user_id as int, Some(name@)));
                        assert(entries[idx as int].0 == user_id as int);
                        assert forall|a: int|
                            0 <= a < removed.len() implies (#[trigger] removed[a]).0 != (
                        user_id as int) by {
                            if a < idx as int {
                                assert(removed[a] == entries[a]);
                            } else {
                                assert(removed[a] == entries[a + 1]);
                            }
                        }
                        assert forall|a: int, b: int|
                            0 <= a < b < after.len() implies (#[trigger] after[a]).0 != (
                        #[trigger] after[b]).0 by {
                            if b == after.len() - 1 {
                                assert(after[a] == removed[a]);
                            } else {
                                assert(after[a] == removed[a] && after[b] == removed[b]);
                            }
                        }
                        assert(assoc_map(after) == assoc_map(removed).insert(
                            user_id as int,
                            Some(name@),
                        ));
                        assert(assoc_map(entries).remove(user_id as int).insert(
                            user_id as int,
                            Some(name@),
                        ) =~= assoc_map(entries).insert(user_id as int, Some(name@)));
                    }
                } else {
                    self.users.push((user_id, Some(name.to_owned())));
                    proof {
                        let after = user_entries(self.users@);
                        assert(after.drop_last() =~= entries);
                        assert(after.last() == (user_id as int, Some(name@)));
                        assert forall|a: int, b: int|
                            0 <= a < b < after.len() implies (#[trigger] after[a]).0 != (
                        #[trigger] after[b]).0 by {
                            if b == after.len() - 1 {
                                assert(after[a] == entries[a]);
                                assert(old(self).users@[a].0 != user_id);
                            } else {
                                assert(after[a] == entries[a] && after[b] == entries[b]);
                            }
                        }
                    }
                }
            },
            None => {
                if found {
                    proof {
                        lemma_assoc_at(entries, idx as int);
                        assert(self.users_map().contains_key(user_id as int));
                    }
                } else {
                    self.users.push((user_id, None));
                    proof {
                        let after = user_entries(self.users@);
                        assert(after.drop_last() =~= entries);
                        assert(after.last() == (user_id as int, None::<Seq<char>>));
                        lemma_assoc_contains(entries, user_id as int);
                        assert forall|a: int, b: int|
                            0 <= a < b < after.len() implies (#[trigger] after[a]).0 != (
                        #[trigger] after[b]).0 by {
                            if b == after.len() - 1 {
                                assert(after[a] == entries[a]);
                                assert(old(self).users@[a].0 != user_id);
                            } else {
                                assert(after[a] == entries[a] && after[b] == entries[b]);
                            }
                        }
                    }
                }
            },
        }
    }

    /// The display name stored for `user_id`; `None`, a normal outcome, both
    /// when no row exists and when the row carries no name.
    #[verifier::loop_isolation(false)]
    pub fn get_username(&self, user_id: i64) -> (r: Option<String>)
        requires
            self.wf(),
        ensures
            match r {
                Some(name) => self.username_of(user_id as int) == Some(name@),
                None => self.username_of(user_id as int) is None,
            },
    {
        let n = self.users.len();
        let mut i: usize = 0;
        while i < n
            invariant
                i <= n,
                forall|k: int| 0 <= k < i ==> (#[trigger] self.users@[k]).0 != user_id,
            decreases n - i,
        {
            if self.users[i].0 == user_id {
                proof {
                    lemma_assoc_at(user_entries(self.users@), i as int);
                }
                match &self.users[i].1 {
                    Some(name) => {
                        return Some(name.clone());
                    },
                    None => {
                        return None;
                    },
                }
            }
            i = i + 1;
        }
        proof {
            lemma_assoc_contains(user_entries(self.users@), user_id as int);
        }
        None
    }
}

/// Law: after a conversation is reset, retrieving its transactions yields the
/// empty sequence.
pub proof fn lemma_reset_then_get(l: Seq<(int, TransactionView)>, chat: int)
    ensures
        txs_of(reset_ledger(l, chat), chat) == Seq::<TransactionView>::empty(),
{
    let keep = other_chat(chat);
    let same = same_chat(chat);
    let kept = l.filter(keep);
    assert forall|i: int| 0 <= i < kept.len() implies !same(#[trigger] kept[i]) by {
        Seq::lemma_filter_pred(l, keep, i);
    }
    assert(kept.all(|x: (int, TransactionView)| !same(x)));
    kept.lemma_all_neg_filter_empty(same);
    assert(txs_of(reset_ledger(l, chat), chat) =~= Seq::<TransactionView>::empty());
}

/// Law: after a transaction is added to a conversation, retrieving that
/// conversation yields what it yielded before with exactly the added value at
/// the end, and every other conversation yields what it yielded before.
pub proof fn lemma_add_then_get(
    l: Seq<(int, TransactionView)>,
    chat: int,
    t: TransactionView,
    other: int,
)
    ensures
        txs_of(l.push((chat, t)), chat) == txs_of(l, chat).push(t),
        other != chat ==> txs_of(l.push((chat, t)), other) == txs_of(l, other),
{
    lemma_txs_of_push(l, (chat, t), chat);
    if other != chat {
        lemma_txs_of_push(l, (chat, t), other);
    }
}

/// Law: upserting a user with a display name and then upserting the same user
/// without one still yields that display name — an absent name never clears a
/// stored one.
pub proof fn lemma_upsert_keeps_name(m: Map<int, Option<Seq<char>>>, uid: int, name: Seq<char>)
    ensures
        name_in(upsert_users(upsert_users(m, uid, Some(name)), uid, None), uid) == Some(name),
{
}

} // verus!
