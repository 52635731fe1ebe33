use onet_agent_core::cards::{Card, ChatMessage, ChatRole, MessageVariant};
use onet_agent_core::message_text::{
    message_copy_id, message_copy_value, push_signed_decimal, trim_leading_blank_lines,
    user_plain_text_html,
};

fn message(role: ChatRole, variant: MessageVariant, content: &str) -> ChatMessage {
    ChatMessage {
        id: 7,
        role,
        variant,
        content: content.to_string(),
        reasoning_content: String::new(),
        is_streaming: false,
    }
}

#[test]
fn user_plain_text_html_escapes_markup_and_preserves_lines() {
    assert_eq!(
        "**保持** &lt;tag&gt; &amp; &quot;quoted&quot; &#39;value&#39;<br>下一行",
        user_plain_text_html("**保持** <tag> & \"quoted\" 'value'\n下一行")
    );
}

#[test]
fn user_plain_text_html_turns_every_line_break_style_into_one_break() {
    assert_eq!("a<br>b<br>c<br>d", user_plain_text_html("a\r\nb\rc\nd"));
    assert_eq!("<br><br>", user_plain_text_html("\r\r\n"));
    assert_eq!("", user_plain_text_html(""));
}

#[test]
fn message_copy_uses_stable_id_and_raw_content() {
    let msg = message(ChatRole::User, MessageVariant::Text, "**raw** <tag>\nnext");

    assert_eq!(message_copy_id(msg.id), "copy-message-7");
    assert_eq!(Some("**raw** <tag>\nnext".to_string()), message_copy_value(&msg));
}

#[test]
fn message_copy_removes_leading_blank_lines_without_losing_indentation() {
    let msg = message(ChatRole::Assistant, MessageVariant::Text, "\r\n\n  \n    indented\nnext");

    assert_eq!(Some("    indented\nnext".to_string()), message_copy_value(&msg));
}

#[test]
fn message_copy_preserves_markdown_code_block_after_leading_blank_lines() {
    let msg = message(
        ChatRole::Assistant,
        MessageVariant::Text,
        "\n \r\n```rust\n    let value = 1;\n```\n",
    );

    assert_eq!(
        Some("```rust\n    let value = 1;\n```\n".to_string()),
        message_copy_value(&msg)
    );
}

#[test]
fn message_copy_ignores_content_that_only_contains_blank_lines() {
    let msg = message(ChatRole::Assistant, MessageVariant::Text, "\r\n\n  ");

    assert_eq!(None, message_copy_value(&msg));
}

#[test]
fn only_user_and_assistant_text_bodies_are_copyable() {
    let assistant = message(ChatRole::Assistant, MessageVariant::Text, "answer");
    let system = message(ChatRole::System, MessageVariant::Text, "system");
    let status = message(
        ChatRole::Assistant,
        MessageVariant::Status { title: "running".into(), is_done: false },
        "",
    );
    let card = message(ChatRole::Assistant, MessageVariant::Card(Card::Other("kind".into())), "payload");
    let user_card = message(ChatRole::User, MessageVariant::Card(Card::Other("kind".into())), "payload");

    assert_eq!(Some("answer".to_string()), message_copy_value(&assistant));
    assert_eq!(None, message_copy_value(&system));
    assert_eq!(None, message_copy_value(&status));
    assert_eq!(None, message_copy_value(&card));
    assert_eq!(None, message_copy_value(&user_card));
    assert_eq!(
        None,
        message_copy_value(&message(ChatRole::Assistant, MessageVariant::Text, ""))
    );
}

#[test]
fn leading_blank_lines_are_trimmed_only_up_to_the_first_filled_line() {
    assert_eq!("x\n\n", trim_leading_blank_lines("\n\nx\n\n"));
    assert_eq!("  x", trim_leading_blank_lines("  x"));
    assert_eq!("", trim_leading_blank_lines(" \t\n "));
}

#[test]
fn signed_decimals_are_written_in_full() {
    let mut s = String::new();
    push_signed_decimal(&mut s, i64::MIN);
    assert_eq!("-9223372036854775808", s);
    let mut t = String::from("n=");
    push_signed_decimal(&mut t, 4096);
    assert_eq!("n=4096", t);
    assert_eq!("copy-message-18446744073709551615", message_copy_id(u64::MAX));
}
