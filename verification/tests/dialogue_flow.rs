use chat_ledger::amount::Amount;
use chat_ledger::db::DB;
use chat_ledger::db::Transaction;
use chat_ledger::dialogue::Dialogues;
use chat_ledger::dialogue::State;
use chat_ledger::engine::Command;
use chat_ledger::engine::Reply;
use chat_ledger::engine::handle_message;
use chat_ledger::engine::help;
use chat_ledger::engine::parse_command;

fn send(
    db: &mut DB,
    dialogue: &mut Dialogues,
    chat: i64,
    user: i64,
    name: Option<&str>,
    text: Option<&str>,
) -> Option<Reply> {
    handle_message(db, dialogue, chat, user, name, text)
}

#[test]
fn decodes_commands() {
    assert_eq!(parse_command("/help"), Some(Command::Help));
    assert_eq!(parse_command("/add"), Some(Command::Add));
    assert_eq!(parse_command("/display"), Some(Command::Display));
    assert_eq!(parse_command("/reset"), Some(Command::Reset));
    assert_eq!(parse_command("/unknown"), None);
    assert_eq!(parse_command("help"), None);
    assert_eq!(parse_command(""), None);
}

#[test]
fn help_lists_the_commands() {
    let r = help();
    assert_eq!(
        r.text,
        "The following commands are supported:\n\n/help — Display this text\n/add — Add a transaction to the ledger\n/display — Display the ledger\n/reset — Reset the ledger"
    );
    assert!(!r.markdown);
}

#[test]
fn full_dialogue_records_one_transaction() {
    let mut db = DB::new();
    let mut dlg = Dialogues::new();

    let r = send(&mut db, &mut dlg, 1, 7, Some("bob"), Some("/add")).unwrap();
    assert_eq!(r.text, "Enter title:");
    let r = send(&mut db, &mut dlg, 1, 7, Some("bob"), Some("Coffee")).unwrap();
    assert_eq!(r.text, "Enter amount:");
    let r = send(&mut db, &mut dlg, 1, 7, Some("bob"), Some("4.50")).unwrap();
    assert_eq!(r.text, "Enter description (type '-' for no description):");
    let r = send(&mut db, &mut dlg, 1, 7, Some("bob"), Some("-")).unwrap();
    assert_eq!(
        r.text,
        "*Added transaction*\n\n🏷️ Coffee\n💰 £4\\.50\n🥷 [bob](tg://user?id=7)"
    );
    assert!(r.markdown);

    let got = db.get_transactions(1);
    assert_eq!(got.len(), 1);
    assert_eq!(
        got[0],
        Transaction {
            user_id: 7,
            title: "Coffee".to_owned(),
            amount: Amount { pence: 450 },
            description: String::new(),
        }
    );
    assert_eq!(dlg.get(1), State::AddStart);
}

#[test]
fn invalid_amount_keeps_the_dialogue_waiting() {
    let mut db = DB::new();
    let mut dlg = Dialogues::new();

    let _ = send(&mut db, &mut dlg, 1, 7, Some("bob"), Some("/add"));
    let _ = send(&mut db, &mut dlg, 1, 7, Some("bob"), Some("Snacks"));
    let r = send(&mut db, &mut dlg, 1, 7, Some("bob"), Some("not-a-number")).unwrap();
    assert_eq!(r.text, "Send me a number");
    assert!(db.get_transactions(1).is_empty());
    assert_eq!(
        dlg.get(1),
        State::AddReceiveAmount { title: "Snacks".to_owned() }
    );

    let r = send(&mut db, &mut dlg, 1, 7, Some("bob"), Some("3.00")).unwrap();
    assert_eq!(r.text, "Enter description (type '-' for no description):");
    assert!(db.get_transactions(1).is_empty());
    let _ = send(&mut db, &mut dlg, 1, 7, Some("bob"), Some("-"));

    let got = db.get_transactions(1);
    assert_eq!(got.len(), 1);
    assert_eq!(got[0].amount, Amount { pence: 300 });
    assert_eq!(got[0].title, "Snacks");
}

#[test]
fn description_dash_means_none_and_other_text_is_kept() {
    let mut db = DB::new();
    let mut dlg = Dialogues::new();

    let _ = send(&mut db, &mut dlg, 1, 7, None, Some("/add"));
    let _ = send(&mut db, &mut dlg, 1, 7, None, Some("Coffee"));
    let _ = send(&mut db, &mut dlg, 1, 7, None, Some("4.50"));
    let _ = send(&mut db, &mut dlg, 1, 7, None, Some("-"));

    let _ = send(&mut db, &mut dlg, 1, 7, None, Some("/add"));
    let _ = send(&mut db, &mut dlg, 1, 7, None, Some("Tea"));
    let _ = send(&mut db, &mut dlg, 1, 7, None, Some("2.00"));
    let _ = send(&mut db, &mut dlg, 1, 7, None, Some("with milk"));

    let got = db.get_transactions(1);
    assert_eq!(got.len(), 2);
    assert_eq!(got[0].description, "");
    assert_eq!(got[1].description, "with milk");
}

#[test]
fn commands_are_plain_text_inside_a_dialogue() {
    let mut db = DB::new();
    let mut dlg = Dialogues::new();

    let _ = send(&mut db, &mut dlg, 1, 7, None, Some("/add"));
    let r = send(&mut db, &mut dlg, 1, 7, None, Some("/reset")).unwrap();
    assert_eq!(r.text, "Enter amount:");
    assert_eq!(
        dlg.get(1),
        State::AddReceiveAmount { title: "/reset".to_owned() }
    );
}

#[test]
fn dialogues_are_isolated_per_conversation() {
    let mut db = DB::new();
    let mut dlg = Dialogues::new();

    let _ = send(&mut db, &mut dlg, 1, 7, None, Some("/add"));
    let _ = send(&mut db, &mut dlg, 2, 9, None, Some("/add"));
    let _ = send(&mut db, &mut dlg, 1, 7, None, Some("Coffee"));
    assert_eq!(dlg.get(2), State::AddReceiveTitle);
    assert_eq!(
        dlg.get(1),
        State::AddReceiveAmount { title: "Coffee".to_owned() }
    );
}

#[test]
fn empty_title_reprompts() {
    let mut db = DB::new();
    let mut dlg = Dialogues::new();

    let _ = send(&mut db, &mut dlg, 1, 7, None, Some("/add"));
    let r = send(&mut db, &mut dlg, 1, 7, None, Some("")).unwrap();
    assert_eq!(r.text, "Send me plain text");
    assert_eq!(dlg.get(1), State::AddReceiveTitle);
}

#[test]
fn non_text_messages_reprompt_inside_a_dialogue() {
    let mut db = DB::new();
    let mut dlg = Dialogues::new();

    let _ = send(&mut db, &mut dlg, 1, 7, None, Some("/add"));
    let r = send(&mut db, &mut dlg, 1, 7, None, None).unwrap();
    assert_eq!(r.text, "Send me plain text");
    let _ = send(&mut db, &mut dlg, 1, 7, None, Some("Coffee"));
    let r = send(&mut db, &mut dlg, 1, 7, None, None).unwrap();
    assert_eq!(r.text, "Send me a number");
}

#[test]
fn ordinary_idle_text_gets_no_reply() {
    let mut db = DB::new();
    let mut dlg = Dialogues::new();

    assert!(send(&mut db, &mut dlg, 1, 7, Some("bob"), Some("hello")).is_none());
    assert!(send(&mut db, &mut dlg, 1, 7, Some("bob"), None).is_none());
    assert_eq!(db.get_username(7), Some("bob".to_owned()));
}

#[test]
fn display_shows_the_ledger() {
    let mut db = DB::new();
    let mut dlg = Dialogues::new();

    let r = send(&mut db, &mut dlg, 1, 7, Some("bob"), Some("/display")).unwrap();
    assert_eq!(r.text, "No transactions found");
    assert!(!r.markdown);

    let _ = send(&mut db, &mut dlg, 1, 7, Some("bob"), Some("/add"));
    let _ = send(&mut db, &mut dlg, 1, 7, Some("bob"), Some("Coffee"));
    let _ = send(&mut db, &mut dlg, 1, 7, Some("bob"), Some("4.50"));
    let _ = send(&mut db, &mut dlg, 1, 7, Some("bob"), Some("-"));
    let _ = send(&mut db, &mut dlg, 1, 9, Some("eve"), Some("/add"));
    let _ = send(&mut db, &mut dlg, 1, 9, Some("eve"), Some("Tea"));
    let _ = send(&mut db, &mut dlg, 1, 9, Some("eve"), Some("2"));
    let _ = send(&mut db, &mut dlg, 1, 9, Some("eve"), Some("mint"));

    let r = send(&mut db, &mut dlg, 1, 7, Some("bob"), Some("/display")).unwrap();
    assert_eq!(
        r.text,
        "🏷️ Coffee\n💰 £4\\.50\n🥷 [bob](tg://user?id=7)\n\n🏷️ Tea\n💰 £2\\.00\n🥷 [eve](tg://user?id=9)\n📝 mint"
    );
    assert!(r.markdown);
}

#[test]
fn reset_command_clears_only_this_conversation() {
    let mut db = DB::new();
    let mut dlg = Dialogues::new();

    let _ = send(&mut db, &mut dlg, 1, 7, None, Some("/add"));
    let _ = send(&mut db, &mut dlg, 1, 7, None, Some("Coffee"));
    let _ = send(&mut db, &mut dlg, 1, 7, None, Some("4.50"));
    let _ = send(&mut db, &mut dlg, 1, 7, None, Some("-"));
    let _ = send(&mut db, &mut dlg, 2, 7, None, Some("/add"));
    let _ = send(&mut db, &mut dlg, 2, 7, None, Some("Tea"));
    let _ = send(&mut db, &mut dlg, 2, 7, None, Some("2"));
    let _ = send(&mut db, &mut dlg, 2, 7, None, Some("-"));

    let r = send(&mut db, &mut dlg, 1, 7, None, Some("/reset")).unwrap();
    assert_eq!(r.text, "All transactions have been reset");
    assert!(db.get_transactions(1).is_empty());
    assert_eq!(db.get_transactions(2).len(), 1);
}

#[test]
fn every_message_refreshes_identity() {
    let mut db = DB::new();
    let mut dlg = Dialogues::new();

    let _ = send(&mut db, &mut dlg, 1, 7, Some("bob"), Some("hello"));
    let _ = send(&mut db, &mut dlg, 1, 7, Some("robert"), Some("hello again"));
    assert_eq!(db.get_username(7), Some("robert".to_owned()));
    let _ = send(&mut db, &mut dlg, 1, 7, None, Some("and again"));
    assert_eq!(db.get_username(7), Some("robert".to_owned()));
}
