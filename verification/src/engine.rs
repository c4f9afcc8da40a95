//! The dialogue engine and command dispatch: a deterministic per-conversation
//! state machine that collects title, amount and description across separate
//! inbound messages, commits the finished transaction to the store, and
//! answers one-shot commands.

use vstd::prelude::*;
use crate::amount::Amount;
use crate::amount::amount_of;
use crate::amount::parse_amount;
use crate::db::DB;
use crate::db::Transaction;
use crate::db::TransactionView;
use crate::db::opt_str_view;
use crate::db::name_in;
use crate::db::reset_ledger;
use crate::db::tx_views;
use crate::db::txs_of;
use crate::db::upsert_users;
use crate::dialogue::Dialogues;
use crate::dialogue::State;
use crate::dialogue::StateView;
use crate::text::chars_to_string;
use crate::text::str_chars;
use crate::utils::format_transaction;
use crate::utils::transaction_text;

verus! {

/// A command recognized at the boundary, decoded once and then dispatched.
#[derive(Clone, Copy, Debug, PartialEq, Eq, Structural)]
pub enum Command {
    Help,
    Add,
    Display,
    Reset,
}

/// One outbound reply: its text, and whether the text is rich-text markup.
#[derive(Debug)]
pub struct Reply {
    pub text: String,
    pub markdown: bool,
}

/// The mathematical value of a reply.
pub ghost struct ReplyView {
    pub text: Seq<char>,
    pub markdown: bool,
}

impl View for Reply {
    type V = ReplyView;

    open spec fn view(&self) -> ReplyView {
        ReplyView { text: self.text@, markdown: self.markdown }
    }
}

/// Whether `r` is a reply with exactly this text and markup flag.
pub open spec fn is_reply(r: Option<Reply>, text: Seq<char>, markdown: bool) -> bool {
    match r {
        Some(rep) => rep@.text == text && rep@.markdown == markdown,
        None => false,
    }
}

/// The command that the message text `s` names, if any.
pub open spec fn command_of(s: Seq<char>) -> Option<Command> {
    if s == "/help"@ {
        Some(Command::Help)
    } else if s == "/add"@ {
        Some(Command::Add)
    } else if s == "/display"@ {
        Some(Command::Display)
    } else if s == "/reset"@ {
        Some(Command::Reset)
    } else {
        None
    }
}

/// Whether `a` holds exactly the characters of `b`.
#[verifier::loop_isolation(false)]
fn chars_eq_str(a: &Vec<char>, b: &str) -> (r: bool)
    ensures
        r == (a@ == b@),
{
    let bc = str_chars(b);
    if a.len() != bc.len() {
        proof {
            if a@ == b@ {
                assert(a@.len() == b@.len());
            }
        }
        return false;
    }
    let mut i: usize = 0;
    while i < a.len()
        invariant
            i <= a@.len(),
            forall|k: int| 0 <= k < i ==> a@[k] == b@[k],
        decreases a@.len() - i,
    {
        if a[i] != bc[i] {
            proof {
                if a@ == b@ {
                    assert(a@[i as int] == b@[i as int]);
                }
            }
            return false;
        }
        i = i + 1;
    }
    proof {
        assert(a@ =~= b@);
    }
    true
}

/// Decodes the message text into a command, `None` when it names none.
pub fn parse_command(s: &str) -> (r: Option<Command>)
    ensures
        r == command_of(s@),
{
    let chars = str_chars(s);
    if chars_eq_str(&chars, "/help") {
        Some(Command::Help)
    } else if chars_eq_str(&chars, "/add") {
        Some(Command::Add)
    } else if chars_eq_str(&chars, "/display") {
        Some(Command::Display)
    } else if chars_eq_str(&chars, "/reset") {
        Some(Command::Reset)
    } else {
        None
    }
}

/// The static description of the supported commands.
pub open spec fn help_text() -> Seq<char> {
    "The following commands are supported:\n\n/help — Display this text\n/add — Add a transaction to the ledger\n/display — Display the ledger\n/reset — Reset the ledger"@
}

/// Answers the help command with the static command descriptions.
pub fn help() -> (r: Reply)
    ensures
        r@.text == help_text(),
        !r@.markdown,
{
    Reply {
        text: "The following commands are supported:\n\n/help — Display this text\n/add — Add a transaction to the ledger\n/display — Display the ledger\n/reset — Reset the ledger".to_owned(),
        markdown: false,
    }
}

/// The text shown for one transaction value, its attribution resolved through
/// the given store value.
pub open spec fn tx_text_of(db: DB, t: TransactionView) -> Seq<char> {
    transaction_text(t.title, t.pence, t.user_id, db.username_of(t.user_id), t.description)
}

/// The texts of all given transactions, joined by blank lines.
pub open spec fn rendered_ledger(db: DB, txs: Seq<TransactionView>) -> Seq<char>
    decreases txs.len(),
{
    if txs.len() == 0 {
        Seq::empty()
    } else if txs.len() == 1 {
        tx_text_of(db, txs[0])
    } else {
        rendered_ledger(db, txs.drop_last()) + "\n\n"@ + tx_text_of(db, txs.last())
    }
}

/// Answers the display command: a fixed notice when the conversation has no
/// transactions, else the rendered ledger as rich text.
#[verifier::loop_isolation(false)]
pub fn display(db: &DB, chat_id: i64) -> (r: Reply)
    requires
        db.wf(),
    ensures
        ({
            let txs = txs_of(db.ledger(), chat_id as int);
            if txs.len() == 0 {
                r@.text == "No transactions found"@ && !r@.markdown
            } else {
                r@.text == rendered_ledger(*db, txs) && r@.markdown
            }
        }),
{
    let ghost txs = txs_of(db.ledger(), chat_id as int);
    let transactions = db.get_transactions(chat_id);
    proof {
        assert(tx_views(transactions@).len() == txs.len());
    }
    if transactions.is_empty() {
        Reply { text: "No transactions found".to_owned(), markdown: false }
    } else {
        let n = transactions.len();
        let mut out: Vec<char> = Vec::new();
        let mut i: usize = 0;
        proof {
            assert(txs.take(0) =~= Seq::<TransactionView>::empty());
        }
        while i < n
            invariant
                i <= n,
                out@ == rendered_ledger(*db, txs.take(i as int)),
            decreases n - i,
        {
            if i > 0 {
                let mut seg = str_chars("\n\n");
                out.append(&mut seg);
            }
            let tx = &transactions[i];
            proof {
                assert(transactions@[i as int]@ == txs[i as int]);
            }
            let line = format_transaction(
                db,
                tx.title.as_str(),
                tx.amount,
                tx.user_id,
                tx.description.as_str(),
            );
            let mut seg = str_chars(line.as_str());
            out.append(&mut seg);
            proof {
                assert(txs.take(i + 1 as int).drop_last() =~= txs.take(i as int));
                assert(txs.take(i + 1 as int).last() == txs[i as int]);
                assert(out@ =~= rendered_ledger(*db, txs.take(i + 1 as int)));
            }
            i = i + 1;
        }
        proof {
            assert(txs.take(n as int) =~= txs);
        }
        Reply { text: chars_to_string(&out), markdown: true }
    }
}

/// Answers the reset command: clears the conversation's ledger.
pub fn reset(db: &mut DB, chat_id: i64) -> (r: Reply)
    requires
        old(db).wf(),
    ensures
        final(db).wf(),
        final(db).ledger() == reset_ledger(old(db).ledger(), chat_id as int),
        final(db).users_map() == old(db).users_map(),
        r@.text == "All transactions have been reset"@,
        !r@.markdown,
{
    db.reset_chat(chat_id);
    Reply { text: "All transactions have been reset".to_owned(), markdown: false }
}

/// Starts the add-transaction dialogue: the conversation awaits a title.
pub fn start_add_dialogue(dialogue: &mut Dialogues, chat_id: i64) -> (r: Reply)
    requires
        old(dialogue).wf(),
    ensures
        final(dialogue).wf(),
        final(dialogue).states() == old(dialogue).states().insert(
            chat_id as int,
            StateView::AddReceiveTitle,
        ),
        r@.text == "Enter title:"@,
        !r@.markdown,
{
    dialogue.update(chat_id, State::AddReceiveTitle);
    Reply { text: "Enter title:".to_owned(), markdown: false }
}

/// Takes the title while the conversation awaits one: any non-empty text is
/// accepted; an empty or missing text re-prompts and keeps the state.
pub fn receive_title(dialogue: &mut Dialogues, chat_id: i64, text: Option<&str>) -> (r: Reply)
    requires
        old(dialogue).wf(),
    ensures
        final(dialogue).wf(),
        !r@.markdown,
        match text {
            Some(t) => if t@.len() > 0 {
                final(dialogue).states() == old(dialogue).states().insert(
                    chat_id as int,
                    StateView::AddReceiveAmount { title: t@ },
                ) && r@.text == "Enter amount:"@
            } else {
                final(dialogue).states() == old(dialogue).states() && r@.text
                    == "Send me plain text"@
            },
            None => final(dialogue).states() == old(dialogue).states() && r@.text
                == "Send me plain text"@,
        },
{
    match text {
        Some(title) => {
            if !title.is_empty() {
                dialogue.update(chat_id, State::AddReceiveAmount { title: title.to_owned() });
                Reply { text: "Enter amount:".to_owned(), markdown: false }
            } else {
                Reply { text: "Send me plain text".to_owned(), markdown: false }
            }
        },
        None => Reply { text: "Send me plain text".to_owned(), markdown: false },
    }
}

/// Takes the amount while the conversation awaits one: text that parses as a
/// decimal amount advances the dialogue; anything else re-prompts and keeps
/// the state, and no transaction is created.
pub fn receive_amount(
    dialogue: &mut Dialogues,
    chat_id: i64,
    title: String,
    text: Option<&str>,
) -> (r: Reply)
    requires
        old(dialogue).wf(),
    ensures
        final(dialogue).wf(),
        !r@.markdown,
        match text {
            Some(t) => match amount_of(t@) {
                Some(p) => final(dialogue).states() == old(dialogue).states().insert(
                    chat_id as int,
                    StateView::AddReceiveDescription { title: title@, pence: p },
                ) && r@.text == "Enter description (type '-' for no description):"@,
                None => final(dialogue).states() == old(dialogue).states() && r@.text
                    == "Send me a number"@,
            },
            None => final(dialogue).states() == old(dialogue).states() && r@.text
                == "Send me a number"@,
        },
{
    match text {
        Some(t) => {
            match parse_amount(t) {
                Some(amount) => {
                    dialogue.update(chat_id, State::AddReceiveDescription { title, amount });
                    Reply {
                        text: "Enter description (type '-' for no description):".to_owned(),
                        markdown: false,
                    }
                },
                None => Reply { text: "Send me a number".to_owned(), markdown: false },
            }
        },
        None => Reply { text: "Send me a number".to_owned(), markdown: false },
    }
}

/// A description as stored: the literal `-` stands for "no description" and
/// becomes the empty string; any other text is kept verbatim.
pub open spec fn normalize_description(d: Seq<char>) -> Seq<char> {
    if d == seq!['-'] {
        Seq::empty()
    } else {
        d
    }
}

/// Takes the description while the conversation awaits one: any text is
/// accepted (`-` meaning "none"), the transaction is committed, the reply
/// confirms it, and the conversation is idle again. A missing text re-prompts
/// and commits nothing.
pub fn receive_description(
    db: &mut DB,
    dialogue: &mut Dialogues,
    chat_id: i64,
    user_id: i64,
    title: String,
    amount: Amount,
    text: Option<&str>,
) -> (r: Reply)
    requires
        old(db).wf(),
        old(dialogue).wf(),
    ensures
        final(db).wf(),
        final(dialogue).wf(),
        final(db).users_map() == old(db).users_map(),
        match text {
            Some(t) => {
                let desc = normalize_description(t@);
                &&& final(db).ledger() == old(db).ledger().push(
                    (
                        chat_id as int,
                        TransactionView {
                            user_id: user_id as int,
                            title: title@,
                            pence: amount.pence as int,
                            description: desc,
                        },
                    ),
                )
                &&& final(dialogue).states() == old(dialogue).states().remove(chat_id as int)
                &&& r@.text == "*Added transaction*\n\n"@ + transaction_text(
                    title@,
                    amount.pence as int,
                    user_id as int,
                    old(db).username_of(user_id as int),
                    desc,
                )
                &&& r@.markdown
            },
            None => {
                &&& final(db).ledger() == old(db).ledger()
                &&& final(dialogue).states() == old(dialogue).states()
                &&& r@.text == "Send me plain text"@
                &&& !r@.markdown
            },
        },
{
    match text {
        Some(t) => {
            let tc = str_chars(t);
            let description: String = if tc.len() == 1 && tc[0] == '-' {
                proof {
                    assert(t@ =~= seq!['-']);
                }
                String::new()
            } else {
                proof {
                    assert(t@ != seq!['-']);
                }
                t.to_owned()
            };
            let transaction = Transaction {
                user_id,
                title: title.clone(),
                amount,
                description: description.clone(),
            };
            db.add_transaction(chat_id, transaction);
            let body = format_transaction(
                db,
                title.as_str(),
                amount,
                user_id,
                description.as_str(),
            );
            let mut out = str_chars("*Added transaction*\n\n");
            let mut seg = str_chars(body.as_str());
            out.append(&mut seg);
            dialogue.exit(chat_id);
            proof {
                assert(out@ =~= "*Added transaction*\n\n"@ + transaction_text(
                    title@,
                    amount.pence as int,
                    user_id as int,
                    old(db).username_of(user_id as int),
                    normalize_description(t@),
                ));
            }
            Reply { text: chars_to_string(&out), markdown: true }
        },
        None => Reply { text: "Send me plain text".to_owned(), markdown: false },
    }
}

/// Handles one inbound message: the sender is upserted first, then the
/// message is routed — to a command handler when the conversation is idle and
/// the text names a command, else to the dialogue step the conversation
/// awaits. `None` means no reply is owed (an idle conversation's ordinary
/// text, or a non-text message outside a dialogue step).
pub fn handle_message(
    db: &mut DB,
    dialogue: &mut Dialogues,
    chat_id: i64,
    user_id: i64,
    username: Option<&str>,
    text: Option<&str>,
) -> (r: Option<Reply>)
    requires
        old(db).wf(),
        old(dialogue).wf(),
    ensures
        final(db).wf(),
        final(dialogue).wf(),
        final(db).users_map() == upsert_users(
            old(db).users_map(),
            user_id as int,
            opt_str_view(username),
        ),
        match old(dialogue).state_of(chat_id as int) {
            StateView::AddStart => {
                let cmd = match text {
                    Some(t) => command_of(t@),
                    None => None,
                };
                match cmd {
                    Some(Command::Help) => final(db).ledger() == old(db).ledger() && final(dialogue).states() == old(dialogue).states() && is_reply(r, help_text(), false),
                    Some(Command::Add) => final(db).ledger() == old(db).ledger() && final(dialogue).states() == old(dialogue).states().insert(
                        chat_id as int,
                        StateView::AddReceiveTitle,
                    ) && is_reply(r, "Enter title:"@, false),
                    Some(Command::Display) => final(db).ledger() == old(db).ledger() && final(dialogue).states() == old(dialogue).states() && ({
                        let txs = txs_of(old(db).ledger(), chat_id as int);
                        if txs.len() == 0 {
                            is_reply(r, "No transactions found"@, false)
                        } else {
                            is_reply(r, rendered_ledger(*final(db), txs), true)
                        }
                    }),
                    Some(Command::Reset) => final(db).ledger() == reset_ledger(
                        old(db).ledger(),
                        chat_id as int,
                    ) && final(dialogue).states() == old(dialogue).states() && is_reply(
                        r,
                        "All transactions have been reset"@,
                        false,
                    ),
                    None => final(db).ledger() == old(db).ledger() && final(dialogue).states()
                        == old(dialogue).states() && r is None,
                }
            },
            StateView::AddReceiveTitle => {
                &&& final(db).ledger() == old(db).ledger()
                &&& match text {
                    Some(t) => if t@.len() > 0 {
                        final(dialogue).states() == old(dialogue).states().insert(
                            chat_id as int,
                            StateView::AddReceiveAmount { title: t@ },
                        ) && is_reply(r, "Enter amount:"@, false)
                    } else {
                        final(dialogue).states() == old(dialogue).states() && is_reply(
                            r,
                            "Send me plain text"@,
                            false,
                        )
                    },
                    None => final(dialogue).states() == old(dialogue).states() && is_reply(
                        r,
                        "Send me plain text"@,
                        false,
                    ),
                }
            },
            StateView::AddReceiveAmount { title } => {
                &&& final(db).ledger() == old(db).ledger()
                &&& match text {
                    Some(t) => match amount_of(t@) {
                        Some(p) => final(dialogue).states() == old(dialogue).states().insert(
                            chat_id as int,
                            StateView::AddReceiveDescription { title, pence: p },
                        ) && is_reply(
                            r,
                            "Enter description (type '-' for no description):"@,
                            false,
                        ),
                        None => final(dialogue).states() == old(dialogue).states() && is_reply(
                            r,
                            "Send me a number"@,
                            false,
                        ),
                    },
                    None => final(dialogue).states() == old(dialogue).states() && is_reply(
                        r,
                        "Send me a number"@,
                        false,
                    ),
                }
            },
            StateView::AddReceiveDescription { title, pence } => {
                match text {
                    Some(t) => {
                        let desc = normalize_description(t@);
                        &&& final(db).ledger() == old(db).ledger().push(
                            (
                                chat_id as int,
                                TransactionView {
                                    user_id: user_id as int,
                                    title,
                                    pence,
                                    description: desc,
                                },
                            ),
                        )
                        &&& final(dialogue).states() == old(dialogue).states().remove(
                            chat_id as int,
                        )
                        &&& is_reply(
                            r,
                            "*Added transaction*\n\n"@ + transaction_text(
                                title,
                                pence,
                                user_id as int,
                                name_in(final(db).users_map(), user_id as int),
                                desc,
                            ),
                            true,
                        )
                    },
                    None => {
                        &&& final(db).ledger() == old(db).ledger()
                        &&& final(dialogue).states() == old(dialogue).states()
                        &&& is_reply(r, "Send me plain text"@, false)
                    },
                }
            },
        },
{
    db.update_user(user_id, username);
    let state = dialogue.get(chat_id);
    match state {
        State::AddStart => {
            match text {
                Some(t) => {
                    match parse_command(t) {
                        Some(Command::Help) => Some(help()),
                        Some(Command::Add) => Some(start_add_dialogue(dialogue, chat_id)),
                        Some(Command::Display) => Some(display(db, chat_id)),
                        Some(Command::Reset) => Some(reset(db, chat_id)),
                        None => None,
                    }
                },
                None => None,
            }
        },
        State::AddReceiveTitle => Some(receive_title(dialogue, chat_id, text)),
        State::AddReceiveAmount { title } => Some(receive_amount(dialogue, chat_id, title, text)),
        State::AddReceiveDescription { title, amount } => Some(
            receive_description(db, dialogue, chat_id, user_id, title, amount, text),
        ),
    }
}

} // verus!
