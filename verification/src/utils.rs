//! Presentation: the two-decimal currency rendering of an amount and the
//! rich-text block shown for one transaction, every user-supplied substring
//! escaped.

use vstd::prelude::*;
use crate::amount::Amount;
use crate::db::DB;
use crate::db::opt_str_view;
use crate::text::chars_to_string;
use crate::text::dec_digits;
use crate::text::dec_int;
use crate::text::digit_char;
use crate::text::digit_char_exec;
use crate::text::escape_markdown_chars;
use crate::text::escape_markdown_seq;
use crate::text::push_dec_i64;
use crate::text::push_dec_u64;
use crate::text::str_chars;

verus! {

/// The two-decimal currency rendering of `p` hundredths: a pound sign, a
/// minus sign for negative values, the whole units, a dot, and exactly two
/// fractional digits.
pub open spec fn pounds_seq(p: int) -> Seq<char> {
    let mag = if p < 0 {
        -p
    } else {
        p
    };
    seq!['£'] + (if p < 0 {
        seq!['-']
    } else {
        Seq::<char>::empty()
    }) + dec_digits((mag / 100) as nat) + seq!['.'] + seq![
        digit_char((mag % 100) / 10),
        digit_char(mag % 10),
    ]
}

/// The characters of the currency rendering of `value`.
pub fn pounds_chars(value: Amount) -> (r: Vec<char>)
    ensures
        r@ == pounds_seq(value.pence as int),
{
    let mut out: Vec<char> = Vec::new();
    out.push('£');
    let p = value.pence;
    let mag: u64 = if p < 0 {
        out.push('-');
        if p == i64::MIN {
            9223372036854775808u64
        } else {
            (-p) as u64
        }
    } else {
        p as u64
    };
    assert(mag as int == if p < 0 {
        -(p as int)
    } else {
        p as int
    });
    push_dec_u64(mag / 100, &mut out);
    out.push('.');
    out.push(digit_char_exec((mag % 100) / 10));
    out.push(digit_char_exec(mag % 10));
    proof {
        assert(out@ =~= pounds_seq(p as int));
    }
    out
}

/// The currency rendering of `value`, as a `String`.
pub fn format_pounds(value: Amount) -> (r: String)
    ensures
        r@ == pounds_seq(value.pence as int),
{
    let chars = pounds_chars(value);
    chars_to_string(&chars)
}

/// The name a transaction is attributed to: the stored display name, or the
/// numeric user id when none is stored.
pub open spec fn display_name_of(username: Option<Seq<char>>, user_id: int) -> Seq<char> {
    match username {
        Some(u) => u,
        None => dec_int(user_id),
    }
}

/// The rich-text block for one transaction: a title line, an amount line, an
/// attribution line linking the display name to the user id, and a
/// description line only when the description is non-empty. Each user-supplied
/// part stands escaped.
pub open spec fn transaction_text(
    title: Seq<char>,
    pence: int,
    user_id: int,
    username: Option<Seq<char>>,
    description: Seq<char>,
) -> Seq<char> {
    "🏷️ "@ + escape_markdown_seq(title) + "\n💰 "@ + escape_markdown_seq(pounds_seq(pence))
        + "\n🥷 ["@ + escape_markdown_seq(display_name_of(username, user_id)) + "](tg://user?id="@
        + dec_int(user_id) + ")"@ + (if description.len() > 0 {
        "\n📝 "@ + escape_markdown_seq(description)
    } else {
        Seq::<char>::empty()
    })
}

/// Renders one transaction from an already-resolved display name: the pure
/// presentation step, with every user-supplied part escaped.
pub fn render_transaction(
    title: &str,
    amount: Amount,
    user_id: i64,
    username: Option<&str>,
    description: &str,
) -> (r: String)
    ensures
        r@ == transaction_text(
            title@,
            amount.pence as int,
            user_id as int,
            opt_str_view(username),
            description@,
        ),
{
    let name_chars: Vec<char> = match username {
        Some(u) => str_chars(u),
        None => {
            let mut v: Vec<char> = Vec::new();
            push_dec_i64(user_id, &mut v);
            v
        },
    };
    let mut out = str_chars("🏷️ ");
    let title_chars = str_chars(title);
    let mut seg = escape_markdown_chars(&title_chars);
    out.append(&mut seg);
    let mut seg = str_chars("\n💰 ");
    out.append(&mut seg);
    let pound_chars = pounds_chars(amount);
    let mut seg = escape_markdown_chars(&pound_chars);
    out.append(&mut seg);
    let mut seg = str_chars("\n🥷 [");
    out.append(&mut seg);
    let mut seg = escape_markdown_chars(&name_chars);
    out.append(&mut seg);
    let mut seg = str_chars("](tg://user?id=");
    out.append(&mut seg);
    push_dec_i64(user_id, &mut out);
    let mut seg = str_chars(")");
    out.append(&mut seg);
    if !description.is_empty() {
        let mut seg = str_chars("\n📝 ");
        out.append(&mut seg);
        let desc_chars = str_chars(description);
        let mut seg = escape_markdown_chars(&desc_chars);
        out.append(&mut seg);
    }
    proof {
        assert(out@ =~= transaction_text(
            title@,
            amount.pence as int,
            user_id as int,
            opt_str_view(username),
            description@,
        ));
    }
    chars_to_string(&out)
}

/// Renders one transaction for the user: the stored display name of `user_id`
/// is resolved through `db`, with the numeric id as fallback.
pub fn format_transaction(
    db: &DB,
    title: &str,
    amount: Amount,
    user_id: i64,
    description: &str,
) -> (r: String)
    requires
        db.wf(),
    ensures
        r@ == transaction_text(
            title@,
            amount.pence as int,
            user_id as int,
            db.username_of(user_id as int),
            description@,
        ),
{
    let username = db.get_username(user_id);
    match username {
        Some(name) => render_transaction(title, amount, user_id, Some(name.as_str()), description),
        None => render_transaction(title, amount, user_id, None, description),
    }
}

} // verus!
