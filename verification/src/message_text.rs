//! Text shown for or copied from a chat message: the HTML of a user's plain
//! text, the copyable body of a message, and decimal numbers in identifiers.
use vstd::prelude::*;

use crate::cards::{ChatMessage, ChatRole, MessageVariant};
use crate::text::{is_ws, push_char};
use crate::transcript_model::{
    first_index, is_first, is_last, last_index, lemma_first_index_is, lemma_first_index_none,
    lemma_last_index_is, lemma_last_index_none,
};

verus! {

/// The decimal digits of a natural number.
pub open spec fn decimal(n: nat) -> Seq<char>
    decreases n,
{
    if n < 10 {
        seq![digit_char(n)]
    } else {
        decimal(n / 10).push(digit_char(n % 10))
    }
}

pub open spec fn digit_char(d: nat) -> char {
    (('0' as u32) + d) as char
}

/// The decimal text of a signed number, with a minus sign when negative.
pub open spec fn signed_decimal(n: int) -> Seq<char> {
    if n < 0 {
        seq!['-'] + decimal((-n) as nat)
    } else {
        decimal(n as nat)
    }
}

/// The number a string of decimal digits stands for.
pub open spec fn digits_value(s: Seq<char>) -> nat
    decreases s.len(),
{
    if s.len() == 0 {
        0
    } else {
        digits_value(s.drop_last()) * 10 + ((s.last() as int - '0' as int) as nat)
    }
}

/// The decimal text of a number is made of digits only, has no leading
/// zero (unless the number is zero), and reads back as the number.
pub proof fn lemma_decimal_reads_back(n: nat)
    ensures
        decimal(n).len() >= 1,
        forall|i: int| 0 <= i < decimal(n).len() ==> '0' <= #[trigger] decimal(n)[i] <= '9',
        decimal(n)[0] != '0' || n == 0,
        digits_value(decimal(n)) == n,
    decreases n,
{
    if n < 10 {
        assert(digit_char(n) as int == '0' as int + n);
        assert(decimal(n).drop_last() =~= Seq::<char>::empty());
        assert(digits_value(decimal(n).drop_last()) == 0);
        assert(decimal(n).last() == digit_char(n));
    } else {
        lemma_decimal_reads_back(n / 10);
        let d = decimal(n);
        assert(d.drop_last() =~= decimal(n / 10));
        assert(digit_char(n % 10) as int == '0' as int + n % 10);
        assert(d[0] == decimal(n / 10)[0]);
        assert forall|i: int| 0 <= i < d.len() implies '0' <= #[trigger] d[i] <= '9' by {
            if i < d.len() - 1 {
                assert(d[i] == decimal(n / 10)[i]);
            }
        }
        assert(d.last() == digit_char(n % 10));
        assert(digits_value(d) == digits_value(d.drop_last()) * 10 + ((d.last() as int - '0' as int) as nat));
        assert(digits_value(d) == (n / 10) * 10 + n % 10);
        assert((n / 10) * 10 + n % 10 == n);
    }
}

fn digit(d: u64) -> (c: char)
    requires
        d < 10,
    ensures
        c == digit_char(d as nat),
{
    if d == 0 { '0' }
    else if d == 1 { '1' }
    else if d == 2 { '2' }
    else if d == 3 { '3' }
    else if d == 4 { '4' }
    else if d == 5 { '5' }
    else if d == 6 { '6' }
    else if d == 7 { '7' }
    else if d == 8 { '8' }
    else { '9' }
}

/// Appends the decimal digits of `n`.
pub fn push_decimal(out: &mut String, n: u64)
    ensures
        final(out)@ == old(out)@ + decimal(n as nat),
    decreases n,
{
    if n < 10 {
        push_char(out, digit(n));
        proof {
            assert(decimal(n as nat) =~= seq![digit_char(n as nat)]);
        }
    } else {
        push_decimal(out, n / 10);
        push_char(out, digit(n % 10));
        proof {
            assert(decimal(n as nat) =~= decimal((n / 10) as nat).push(digit_char((n % 10) as nat)));
        }
    }
}

/// Appends the decimal text of a signed number.
pub fn push_signed_decimal(out: &mut String, n: i64)
    ensures
        final(out)@ == old(out)@ + signed_decimal(n as int),
{
    if n < 0 {
        push_char(out, '-');
        let magnitude: u64 = if n == i64::MIN {
            9223372036854775808u64
        } else {
            (-n) as u64
        };
        let ghost mid = out@;
        push_decimal(out, magnitude);
        proof {
            assert(out@ =~= old(out)@ + (seq!['-'] + decimal((-n) as nat)));
        }
    } else {
        push_decimal(out, n as u64);
    }
}

/// The HTML of a user's plain text: markup characters are escaped and
/// each line break (`\n`, `\r\n` or a lone `\r`) becomes `<br>`.
pub open spec fn plain_text_html(s: Seq<char>) -> Seq<char>
    decreases s.len(),
{
    if s.len() == 0 {
        Seq::empty()
    } else if s[0] == '\r' && s.len() > 1 && s[1] == '\n' {
        "<br>"@ + plain_text_html(s.subrange(2, s.len() as int))
    } else {
        html_char(s[0]) + plain_text_html(s.subrange(1, s.len() as int))
    }
}

/// The HTML of one character.
pub open spec fn html_char(c: char) -> Seq<char> {
    if c == '&' {
        "&amp;"@
    } else if c == '<' {
        "&lt;"@
    } else if c == '>' {
        "&gt;"@
    } else if c == '"' {
        "&quot;"@
    } else if c == '\'' {
        "&#39;"@
    } else if c == '\r' || c == '\n' {
        "<br>"@
    } else {
        seq![c]
    }
}

fn push_html_char(out: &mut String, c: char)
    ensures
        final(out)@ == old(out)@ + html_char(c),
{
    proof {
        reveal_strlit("&amp;");
        reveal_strlit("&lt;");
        reveal_strlit("&gt;");
        reveal_strlit("&quot;");
        reveal_strlit("&#39;");
        reveal_strlit("<br>");
    }
    if c == '&' {
        out.append("&amp;");
    } else if c == '<' {
        out.append("&lt;");
    } else if c == '>' {
        out.append("&gt;");
    } else if c == '"' {
        out.append("&quot;");
    } else if c == '\'' {
        out.append("&#39;");
    } else if c == '\r' || c == '\n' {
        out.append("<br>");
    } else {
        push_char(out, c);
        proof {
            assert(out@ =~= old(out)@ + seq![c]);
        }
    }
}

/// A character that HTML escaping rewrites: markup or a line break.
pub open spec fn is_markup_char(c: char) -> bool {
    c == '&' || c == '<' || c == '>' || c == '"' || c == '\'' || c == '\r' || c == '\n'
}

/// The HTML of a plain text holds no markup of its own: every `<` in it
/// begins a `<br>` line break, and no raw quote or apostrophe is left.  A
/// text without markup characters or line breaks shows as itself.
pub proof fn lemma_plain_text_html_escapes(s: Seq<char>)
    ensures
        forall|i: int|
            0 <= i < plain_text_html(s).len() && #[trigger] plain_text_html(s)[i] == '<' ==> i
                + 4 <= plain_text_html(s).len() && plain_text_html(s).subrange(i, i + 4)
                == "<br>"@,
        forall|i: int|
            0 <= i < plain_text_html(s).len() ==> #[trigger] plain_text_html(s)[i] != '"'
                && plain_text_html(s)[i] != '\'',
        (forall|i: int| 0 <= i < s.len() ==> !is_markup_char(#[trigger] s[i])) ==> plain_text_html(
            s,
        ) == s,
    decreases s.len(),
{
    reveal_strlit("&amp;");
    reveal_strlit("&lt;");
    reveal_strlit("&gt;");
    reveal_strlit("&quot;");
    reveal_strlit("&#39;");
    reveal_strlit("<br>");
    if s.len() > 0 {
        let crlf = s[0] == '\r' && s.len() > 1 && s[1] == '\n';
        let k: int = if crlf {
            2
        } else {
            1
        };
        let rest = s.subrange(k, s.len() as int);
        let pre = if crlf {
            "<br>"@
        } else {
            html_char(s[0])
        };
        lemma_plain_text_html_escapes(rest);
        let out = plain_text_html(s);
        let tail = plain_text_html(rest);
        assert(out == pre + tail);
        assert forall|i: int| 0 <= i < out.len() && #[trigger] out[i] == '<' implies i + 4
            <= out.len() && out.subrange(i, i + 4) == "<br>"@ by {
            if i < pre.len() {
                assert(pre == "<br>"@ && i == 0);
                assert(out.subrange(0, 4) =~= pre);
            } else {
                let j = i - pre.len();
                assert(tail[j] == out[i]);
                assert(out.subrange(i, i + 4) =~= tail.subrange(j, j + 4));
            }
        }
        assert forall|i: int| 0 <= i < out.len() implies #[trigger] out[i] != '"' && out[i]
            != '\'' by {
            if i >= pre.len() {
                assert(tail[i - pre.len()] == out[i]);
            }
        }
        if forall|i: int| 0 <= i < s.len() ==> !is_markup_char(#[trigger] s[i]) {
            assert(!is_markup_char(s[0]));
            assert forall|i: int| 0 <= i < rest.len() implies !is_markup_char(#[trigger] rest[i]) by {
                assert(rest[i] == s[i + 1]);
            }
            assert(seq![s[0]] + rest =~= s);
        }
    }
}

/// The HTML shown for a user's plain-text message (see `plain_text_html`).
pub fn user_plain_text_html(text: &str) -> (r: String)
    ensures
        r@ == plain_text_html(text@),
{
    proof {
        reveal_strlit("<br>");
    }
    let ghost s = text@;
    let n = text.unicode_len();
    let mut html = String::new();
    let mut i: usize = 0;
    proof {
        assert(s.subrange(0, n as int) =~= s);
    }
    while i < n
        invariant
            s == text@,
            n == s.len(),
            i <= n,
            html@ + plain_text_html(s.subrange(i as int, n as int)) == plain_text_html(s),
        decreases n - i,
    {
        let ghost rest = s.subrange(i as int, n as int);
        let c = text.get_char(i);
        if c == '\r' && i + 1 < n && text.get_char(i + 1) == '\n' {
            proof {
                assert(rest.subrange(2, rest.len() as int) =~= s.subrange(i + 2, n as int));
            }
            let ghost prev = html@;
            html.append("<br>");
            proof {
                assert(html@ + plain_text_html(s.subrange(i + 2, n as int)) =~= prev
                    + plain_text_html(rest));
            }
            i = i + 2;
        } else {
            proof {
                assert(rest.subrange(1, rest.len() as int) =~= s.subrange(i + 1, n as int));
            }
            let ghost prev = html@;
            push_html_char(&mut html, c);
            proof {
                assert(html@ + plain_text_html(s.subrange(i + 1, n as int)) =~= prev
                    + plain_text_html(rest));
            }
            i = i + 1;
        }
    }
    proof {
        assert(s.subrange(n as int, n as int) =~= Seq::<char>::empty());
        assert(html@ =~= html@ + Seq::<char>::empty());
    }
    html
}

pub open spec fn non_ws() -> spec_fn(char) -> bool {
    |c: char| !is_ws(c)
}

pub open spec fn newline() -> spec_fn(char) -> bool {
    |c: char| c == '\n'
}

/// Where the copyable body of a text starts: at the beginning of the first
/// line holding something other than whitespace (the end of the text when
/// there is none).
pub open spec fn copy_start(s: Seq<char>) -> int {
    match first_index(s, non_ws()) {
        Some(j) => match last_index(s.take(j), newline()) {
            Some(k) => k + 1,
            None => 0,
        },
        None => s.len() as int,
    }
}

/// The text without its leading blank lines; the indentation of the first
/// kept line stays.
pub fn trim_leading_blank_lines(content: &str) -> (r: &str)
    ensures
        0 <= copy_start(content@) <= content@.len(),
        r@ == content@.subrange(copy_start(content@), content@.len() as int),
{
    let ghost s = content@;
    let n = content.unicode_len();
    let mut j: usize = 0;
    while j < n && crate::text::is_whitespace(content.get_char(j))
        invariant
            s == content@,
            n == s.len(),
            j <= n,
            forall|k: int| 0 <= k < j ==> !non_ws()(#[trigger] s[k]),
        decreases n - j,
    {
        j = j + 1;
    }
    if j == n {
        proof {
            lemma_first_index_none(s, non_ws());
        }
        return content.substring_char(n, n);
    }
    proof {
        assert(is_first(s, non_ws(), j as int));
        lemma_first_index_is(s, non_ws(), j as int);
    }
    let ghost head = s.take(j as int);
    let mut k: usize = j;
    while k > 0 && content.get_char(k - 1) != '\n'
        invariant
            s == content@,
            head == s.take(j as int),
            n == s.len(),
            j < n,
            k <= j,
            forall|m: int| k <= m < j ==> !newline()(#[trigger] head[m]),
        decreases k,
    {
        k = k - 1;
    }
    if k > 0 {
        proof {
            assert(is_last(head, newline(), k - 1));
            lemma_last_index_is(head, newline(), k - 1);
        }
    } else {
        proof {
            lemma_last_index_none(head, newline());
        }
    }
    content.substring_char(k, n)
}

/// The text a message's copy button copies: the body of a user or assistant
/// text message without its leading blank lines, when anything is left.
pub open spec fn copy_value(role: ChatRole, is_text: bool, content: Seq<char>) -> Option<Seq<char>> {
    if (role == ChatRole::User || role == ChatRole::Assistant) && is_text {
        let body = content.subrange(copy_start(content), content.len() as int);
        if body.len() == 0 {
            None
        } else {
            Some(body)
        }
    } else {
        None
    }
}

pub fn message_copy_value(message: &ChatMessage) -> (r: Option<String>)
    ensures
        match r {
            Some(t) => copy_value(message.role, message.variant is Text, message.content@) == Some(t@),
            None => copy_value(message.role, message.variant is Text, message.content@) is None,
        },
{
    let is_text = match message.variant {
        MessageVariant::Text => true,
        _ => false,
    };
    let copyable_role = match message.role {
        ChatRole::User | ChatRole::Assistant => true,
        ChatRole::System => false,
    };
    if !(copyable_role && is_text) {
        return None;
    }
    let body = trim_leading_blank_lines(message.content.as_str());
    if body.unicode_len() == 0 {
        None
    } else {
        Some(body.to_owned())
    }
}

/// The identifier of a message's copy button.
pub fn message_copy_id(message_id: u64) -> (r: String)
    ensures
        r@ == "copy-message-"@ + decimal(message_id as nat),
{
    let mut id = "copy-message-".to_owned();
    push_decimal(&mut id, message_id);
    id
}

} // verus!
