use chat_ledger::amount::Amount;
use chat_ledger::db::DB;
use chat_ledger::text::escape_markdown;
use chat_ledger::text::i64_to_string;
use chat_ledger::utils::format_transaction;
use chat_ledger::utils::render_transaction;

#[test]
fn escapes_nothing_in_plain_text() {
    assert_eq!(escape_markdown("hello world"), "hello world");
    assert_eq!(escape_markdown(""), "");
}

#[test]
fn escapes_every_special_character() {
    assert_eq!(
        escape_markdown("_*[]()~`>#+-=|{}.!"),
        "\\_\\*\\[\\]\\(\\)\\~\\`\\>\\#\\+\\-\\=\\|\\{\\}\\.\\!"
    );
    assert_eq!(escape_markdown("a_b*c."), "a\\_b\\*c\\.");
}

#[test]
fn renders_integers_in_decimal() {
    assert_eq!(i64_to_string(0), "0");
    assert_eq!(i64_to_string(42), "42");
    assert_eq!(i64_to_string(-42), "-42");
    assert_eq!(i64_to_string(i64::MAX), "9223372036854775807");
    assert_eq!(i64_to_string(i64::MIN), "-9223372036854775808");
}

#[test]
fn renders_transaction_without_description() {
    let text = render_transaction("Coffee", Amount { pence: 450 }, 7, Some("bob"), "");
    assert_eq!(text, "🏷️ Coffee\n💰 £4\\.50\n🥷 [bob](tg://user?id=7)");
}

#[test]
fn renders_transaction_with_description() {
    let text = render_transaction("Coffee", Amount { pence: 450 }, 7, Some("bob"), "morning");
    assert_eq!(
        text,
        "🏷️ Coffee\n💰 £4\\.50\n🥷 [bob](tg://user?id=7)\n📝 morning"
    );
}

#[test]
fn falls_back_to_numeric_id() {
    let text = render_transaction("Coffee", Amount { pence: 450 }, 7, None, "");
    assert_eq!(text, "🏷️ Coffee\n💰 £4\\.50\n🥷 [7](tg://user?id=7)");
}

#[test]
fn escapes_user_supplied_parts() {
    let text = render_transaction(
        "a_b",
        Amount { pence: 100 },
        -3,
        Some("x.y"),
        "c!d",
    );
    assert_eq!(
        text,
        "🏷️ a\\_b\n💰 £1\\.00\n🥷 [x\\.y](tg://user?id=-3)\n📝 c\\!d"
    );
}

#[test]
fn format_transaction_resolves_the_stored_name() {
    let mut db = DB::new();
    db.update_user(7, Some("bob"));
    let text = format_transaction(&db, "Coffee", Amount { pence: 450 }, 7, "");
    assert_eq!(text, "🏷️ Coffee\n💰 £4\\.50\n🥷 [bob](tg://user?id=7)");
    let text = format_transaction(&db, "Coffee", Amount { pence: 450 }, 8, "");
    assert_eq!(text, "🏷️ Coffee\n💰 £4\\.50\n🥷 [8](tg://user?id=8)");
}
