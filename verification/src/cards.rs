//! Messages of an agent conversation and the structured cards some of them
//! carry (tool calls, tool confirmations, ACP permission requests, sub-agents),
//! with the rules that keep every field within a byte budget.
use vstd::prelude::*;

use crate::budget::{byte_count, byte_len, truncate_to_recent, truncated_recent};

verus! {

/// Fields of a card are kept to at most this many bytes.
pub const MAX_CARD_FIELD_BYTES: usize = 65536;

/// Fields of the items listed inside a card are kept to at most this many bytes.
pub const MAX_CARD_ITEM_FIELD_BYTES: usize = 8192;

/// A card lists at most this many items.
pub const MAX_CARD_COLLECTION_ITEMS: usize = 64;

pub open spec fn min_usize(a: usize, b: usize) -> usize {
    if a < b {
        a
    } else {
        b
    }
}

pub open spec fn opt_view(o: Option<String>) -> Option<Seq<char>> {
    match o {
        Some(s) => Some(s@),
        None => None,
    }
}

/// A tool call and, once it has run, what it observed.
#[derive(Debug, Clone)]
pub struct ToolCardData {
    pub call_id: String,
    pub tool_name: String,
    pub target_id: Option<String>,
    pub target_label: Option<String>,
    pub input_summary: String,
    pub input_json: String,
    pub running: bool,
    pub success: Option<bool>,
    pub summary: String,
    pub data_text: String,
}

/// One call listed on a confirmation card.
#[derive(Debug, Clone)]
pub struct ToolConfirmItemData {
    pub call_id: String,
    pub tool_name: String,
    pub input_summary: String,
    pub input_json: String,
}

/// A request for the user to approve tool calls; `status` is `"pending"`,
/// `"approved"` or `"rejected"`.
#[derive(Debug, Clone)]
pub struct ToolConfirmCardData {
    pub call_id: String,
    pub tool_name: String,
    pub items: Vec<ToolConfirmItemData>,
    pub input_summary: String,
    pub input_json: String,
    pub question: String,
    pub status: String,
}

/// One choice offered by an ACP permission request.
#[derive(Debug, Clone)]
pub struct AcpPermissionOptionData {
    pub option_id: String,
    pub name: String,
    pub kind: String,
}

/// A permission request of an external ACP agent; `status` is `"pending"`,
/// `"approved"`, `"rejected"` or `"cancelled"`.
#[derive(Debug, Clone)]
pub struct AcpPermissionCardData {
    pub request_id: String,
    pub session_id: String,
    pub tool_call_id: Option<String>,
    pub tool_name: String,
    pub summary: String,
    pub details_json: String,
    pub options: Vec<AcpPermissionOptionData>,
    pub status: String,
    pub selected_option_name: String,
}

/// A delegated sub-agent and its progress.
#[derive(Debug, Clone)]
pub struct SubAgentCardData {
    pub subagent_id: String,
    pub name: String,
    pub task: String,
    pub running: bool,
    pub success: Option<bool>,
    pub summary: String,
}

/// The structured content of a card message.
#[derive(Debug, Clone)]
pub enum Card {
    Tool(ToolCardData),
    ToolConfirm(ToolConfirmCardData),
    AcpPermission(AcpPermissionCardData),
    SubAgent(SubAgentCardData),
    /// A card of another kind (such as a chart) whose payload is the message content.
    Other(String),
}

#[derive(Debug, Clone, Copy, PartialEq, Eq, Structural)]
pub enum ChatRole {
    User,
    Assistant,
    System,
}

#[derive(Debug, Clone)]
pub enum MessageVariant {
    Text,
    Status { title: String, is_done: bool },
    Card(Card),
}

/// One message of a conversation.
#[derive(Debug, Clone)]
pub struct ChatMessage {
    pub id: u64,
    pub role: ChatRole,
    pub variant: MessageVariant,
    pub content: String,
    pub reasoning_content: String,
    pub is_streaming: bool,
}


/// Mathematical view of a tool card.
#[verifier::ext_equal]
pub struct ToolCardView {
    pub call_id: Seq<char>,
    pub tool_name: Seq<char>,
    pub target_id: Option<Seq<char>>,
    pub target_label: Option<Seq<char>>,
    pub input_summary: Seq<char>,
    pub input_json: Seq<char>,
    pub running: bool,
    pub success: Option<bool>,
    pub summary: Seq<char>,
    pub data_text: Seq<char>,
}

#[verifier::ext_equal]
pub struct ConfirmItemView {
    pub call_id: Seq<char>,
    pub tool_name: Seq<char>,
    pub input_summary: Seq<char>,
    pub input_json: Seq<char>,
}

#[verifier::ext_equal]
pub struct ToolConfirmView {
    pub call_id: Seq<char>,
    pub tool_name: Seq<char>,
    pub items: Seq<ConfirmItemView>,
    pub input_summary: Seq<char>,
    pub input_json: Seq<char>,
    pub question: Seq<char>,
    pub status: Seq<char>,
}

#[verifier::ext_equal]
pub struct PermissionOptionView {
    pub option_id: Seq<char>,
    pub name: Seq<char>,
    pub kind: Seq<char>,
}

#[verifier::ext_equal]
pub struct AcpPermissionView {
    pub request_id: Seq<char>,
    pub session_id: Seq<char>,
    pub tool_call_id: Option<Seq<char>>,
    pub tool_name: Seq<char>,
    pub summary: Seq<char>,
    pub details_json: Seq<char>,
    pub options: Seq<PermissionOptionView>,
    pub status: Seq<char>,
    pub selected_option_name: Seq<char>,
}

#[verifier::ext_equal]
pub struct SubAgentView {
    pub subagent_id: Seq<char>,
    pub name: Seq<char>,
    pub task: Seq<char>,
    pub running: bool,
    pub success: Option<bool>,
    pub summary: Seq<char>,
}

#[verifier::ext_equal]
pub enum CardView {
    Tool(ToolCardView),
    ToolConfirm(ToolConfirmView),
    AcpPermission(AcpPermissionView),
    SubAgent(SubAgentView),
    Other(Seq<char>),
}

#[verifier::ext_equal]
pub enum VariantView {
    Text,
    Status { title: Seq<char>, is_done: bool },
    Card(CardView),
}

/// Mathematical view of a message.
#[verifier::ext_equal]
pub struct MessageView {
    pub id: u64,
    pub role: ChatRole,
    pub variant: VariantView,
    pub content: Seq<char>,
    pub reasoning_content: Seq<char>,
    pub is_streaming: bool,
}

impl View for ToolCardData {
    type V = ToolCardView;

    open spec fn view(&self) -> ToolCardView {
        ToolCardView {
            call_id: self.call_id@,
            tool_name: self.tool_name@,
            target_id: opt_view(self.target_id),
            target_label: opt_view(self.target_label),
            input_summary: self.input_summary@,
            input_json: self.input_json@,
            running: self.running,
            success: self.success,
            summary: self.summary@,
            data_text: self.data_text@,
        }
    }
}

impl View for ToolConfirmItemData {
    type V = ConfirmItemView;

    open spec fn view(&self) -> ConfirmItemView {
        ConfirmItemView {
            call_id: self.call_id@,
            tool_name: self.tool_name@,
            input_summary: self.input_summary@,
            input_json: self.input_json@,
        }
    }
}

impl View for ToolConfirmCardData {
    type V = ToolConfirmView;

    open spec fn view(&self) -> ToolConfirmView {
        ToolConfirmView {
            call_id: self.call_id@,
            tool_name: self.tool_name@,
            items: self.items@.map_values(|i: ToolConfirmItemData| i@),
            input_summary: self.input_summary@,
            input_json: self.input_json@,
            question: self.question@,
            status: self.status@,
        }
    }
}

impl View for AcpPermissionOptionData {
    type V = PermissionOptionView;

    open spec fn view(&self) -> PermissionOptionView {
        PermissionOptionView { option_id: self.option_id@, name: self.name@, kind: self.kind@ }
    }
}

impl View for AcpPermissionCardData {
    type V = AcpPermissionView;

    open spec fn view(&self) -> AcpPermissionView {
        AcpPermissionView {
            request_id: self.request_id@,
            session_id: self.session_id@,
            tool_call_id: opt_view(self.tool_call_id),
            tool_name: self.tool_name@,
            summary: self.summary@,
            details_json: self.details_json@,
            options: self.options@.map_values(|o: AcpPermissionOptionData| o@),
            status: self.status@,
            selected_option_name: self.selected_option_name@,
        }
    }
}

impl View for SubAgentCardData {
    type V = SubAgentView;

    open spec fn view(&self) -> SubAgentView {
        SubAgentView {
            subagent_id: self.subagent_id@,
            name: self.name@,
            task: self.task@,
            running: self.running,
            success: self.success,
            summary: self.summary@,
        }
    }
}

impl View for Card {
    type V = CardView;

    open spec fn view(&self) -> CardView {
        match *self {
            Card::Tool(d) => CardView::Tool(d@),
            Card::ToolConfirm(d) => CardView::ToolConfirm(d@),
            Card::AcpPermission(d) => CardView::AcpPermission(d@),
            Card::SubAgent(d) => CardView::SubAgent(d@),
            Card::Other(k) => CardView::Other(k@),
        }
    }
}

impl View for MessageVariant {
    type V = VariantView;

    open spec fn view(&self) -> VariantView {
        match *self {
            MessageVariant::Text => VariantView::Text,
            MessageVariant::Status { title, is_done } => VariantView::Status {
                title: title@,
                is_done,
            },
            MessageVariant::Card(c) => VariantView::Card(c@),
        }
    }
}

impl View for ChatMessage {
    type V = MessageView;

    open spec fn view(&self) -> MessageView {
        MessageView {
            id: self.id,
            role: self.role,
            variant: self.variant@,
            content: self.content@,
            reasoning_content: self.reasoning_content@,
            is_streaming: self.is_streaming,
        }
    }
}

pub open spec fn message_views(s: Seq<ChatMessage>) -> Seq<MessageView> {
    s.map_values(|m: ChatMessage| m@)
}

pub open spec fn opt_seq_bytes(o: Option<Seq<char>>) -> int {
    match o {
        Some(s) => byte_len(s) as int,
        None => 0,
    }
}

pub open spec fn item_bytes(i: ConfirmItemView) -> int {
    (byte_len(i.call_id) + byte_len(i.tool_name) + byte_len(i.input_summary) + byte_len(
        i.input_json,
    )) as int
}

pub open spec fn items_bytes(s: Seq<ConfirmItemView>) -> int
    decreases s.len(),
{
    if s.len() == 0 {
        0
    } else {
        items_bytes(s.drop_last()) + item_bytes(s.last())
    }
}

pub open spec fn option_bytes(o: PermissionOptionView) -> int {
    (byte_len(o.option_id) + byte_len(o.name) + byte_len(o.kind)) as int
}

pub open spec fn options_bytes(s: Seq<PermissionOptionView>) -> int
    decreases s.len(),
{
    if s.len() == 0 {
        0
    } else {
        options_bytes(s.drop_last()) + option_bytes(s.last())
    }
}

/// The text a card holds: the bytes of all its text fields.
pub open spec fn card_bytes(c: CardView) -> int {
    match c {
        CardView::Tool(d) => byte_len(d.call_id) + byte_len(d.tool_name) + opt_seq_bytes(
            d.target_id,
        ) + opt_seq_bytes(d.target_label) + byte_len(d.input_summary) + byte_len(d.input_json)
            + byte_len(d.summary) + byte_len(d.data_text),
        CardView::ToolConfirm(d) => byte_len(d.call_id) + byte_len(d.tool_name) + items_bytes(
            d.items,
        ) + byte_len(d.input_summary) + byte_len(d.input_json) + byte_len(d.question) + byte_len(
            d.status,
        ),
        CardView::AcpPermission(d) => byte_len(d.request_id) + byte_len(d.session_id)
            + opt_seq_bytes(d.tool_call_id) + byte_len(d.tool_name) + byte_len(d.summary)
            + byte_len(d.details_json) + options_bytes(d.options) + byte_len(d.status) + byte_len(
            d.selected_option_name,
        ),
        CardView::SubAgent(d) => (byte_len(d.subagent_id) + byte_len(d.name) + byte_len(d.task)
            + byte_len(d.summary)) as int,
        CardView::Other(kind) => byte_len(kind) as int,
    }
}

/// The text a message holds: content, reasoning, a status title and card fields.
pub open spec fn message_bytes(m: MessageView) -> int {
    byte_len(m.content) + byte_len(m.reasoning_content) + match m.variant {
        VariantView::Status { title, .. } => byte_len(title) as int,
        VariantView::Card(c) => card_bytes(c),
        VariantView::Text => 0,
    }
}

/// The text of a list of messages.
pub open spec fn messages_bytes(s: Seq<MessageView>) -> int
    decreases s.len(),
{
    if s.len() == 0 {
        0
    } else {
        messages_bytes(s.drop_last()) + message_bytes(s.last())
    }
}

pub open spec fn sat(x: int) -> int {
    if x > usize::MAX {
        usize::MAX as int
    } else {
        x
    }
}

proof fn lemma_items_bytes_nonneg(s: Seq<ConfirmItemView>)
    ensures
        items_bytes(s) >= 0,
    decreases s.len(),
{
    if s.len() > 0 {
        lemma_items_bytes_nonneg(s.drop_last());
    }
}

proof fn lemma_options_bytes_nonneg(s: Seq<PermissionOptionView>)
    ensures
        options_bytes(s) >= 0,
    decreases s.len(),
{
    if s.len() > 0 {
        lemma_options_bytes_nonneg(s.drop_last());
    }
}

pub proof fn lemma_card_bytes_nonneg(c: CardView)
    ensures
        card_bytes(c) >= 0,
{
    match c {
        CardView::ToolConfirm(d) => lemma_items_bytes_nonneg(d.items),
        CardView::AcpPermission(d) => lemma_options_bytes_nonneg(d.options),
        _ => {},
    }
}

pub proof fn lemma_message_bytes_nonneg(m: MessageView)
    ensures
        message_bytes(m) >= 0,
{
    match m.variant {
        VariantView::Card(c) => lemma_card_bytes_nonneg(c),
        _ => {},
    }
}

pub proof fn lemma_messages_bytes_nonneg(s: Seq<MessageView>)
    ensures
        messages_bytes(s) >= 0,
    decreases s.len(),
{
    if s.len() > 0 {
        lemma_messages_bytes_nonneg(s.drop_last());
        lemma_message_bytes_nonneg(s.last());
    }
}

fn sat_add(a: usize, b: usize) -> (r: usize)
    ensures
        r == sat(a + b),
{
    if a > usize::MAX - b {
        usize::MAX
    } else {
        a + b
    }
}

fn opt_byte_count(o: &Option<String>) -> (r: usize)
    ensures
        r == sat(opt_seq_bytes(opt_view(*o))),
{
    match o {
        Some(s) => byte_count(s.as_str()),
        None => 0,
    }
}

fn items_byte_count(items: &Vec<ToolConfirmItemData>) -> (r: usize)
    ensures
        r == sat(items_bytes(items@.map_values(|i: ToolConfirmItemData| i@))),
{
    let ghost v = items@.map_values(|i: ToolConfirmItemData| i@);
    let mut total: usize = 0;
    let mut i: usize = 0;
    let ghost mut sum: int = 0;
    while i < items.len()
        invariant
            v == items@.map_values(|i: ToolConfirmItemData| i@),
            i <= items@.len(),
            sum == items_bytes(v.take(i as int)),
            total == sat(sum),
            sum >= 0,
        decreases items@.len() - i,
    {
        let it = &items[i];
        let b = sat_add(
            sat_add(
                sat_add(byte_count(it.call_id.as_str()), byte_count(it.tool_name.as_str())),
                byte_count(it.input_summary.as_str()),
            ),
            byte_count(it.input_json.as_str()),
        );
        proof {
            assert(v.take(i + 1).drop_last() =~= v.take(i as int));
            assert(v.take(i + 1).last() == it@);
        }
        total = sat_add(total, b);
        proof {
            sum = sum + item_bytes(it@);
        }
        i = i + 1;
    }
    proof {
        assert(v.take(items@.len() as int) =~= v);
    }
    total
}

fn options_byte_count(options: &Vec<AcpPermissionOptionData>) -> (r: usize)
    ensures
        r == sat(options_bytes(options@.map_values(|o: AcpPermissionOptionData| o@))),
{
    let ghost v = options@.map_values(|o: AcpPermissionOptionData| o@);
    let mut total: usize = 0;
    let mut i: usize = 0;
    let ghost mut sum: int = 0;
    while i < options.len()
        invariant
            v == options@.map_values(|o: AcpPermissionOptionData| o@),
            i <= options@.len(),
            sum == options_bytes(v.take(i as int)),
            total == sat(sum),
            sum >= 0,
        decreases options@.len() - i,
    {
        let o = &options[i];
        let b = sat_add(
            sat_add(byte_count(o.option_id.as_str()), byte_count(o.name.as_str())),
            byte_count(o.kind.as_str()),
        );
        proof {
            assert(v.take(i + 1).drop_last() =~= v.take(i as int));
            assert(v.take(i + 1).last() == o@);
        }
        total = sat_add(total, b);
        proof {
            sum = sum + option_bytes(o@);
        }
        i = i + 1;
    }
    proof {
        assert(v.take(options@.len() as int) =~= v);
    }
    total
}

fn card_byte_count(c: &Card) -> (r: usize)
    ensures
        r == sat(card_bytes(c@)),
{
    proof {
        lemma_card_bytes_nonneg(c@);
    }
    match c {
        Card::Tool(d) => {
            let mut t = byte_count(d.call_id.as_str());
            t = sat_add(t, byte_count(d.tool_name.as_str()));
            t = sat_add(t, opt_byte_count(&d.target_id));
            t = sat_add(t, opt_byte_count(&d.target_label));
            t = sat_add(t, byte_count(d.input_summary.as_str()));
            t = sat_add(t, byte_count(d.input_json.as_str()));
            t = sat_add(t, byte_count(d.summary.as_str()));
            t = sat_add(t, byte_count(d.data_text.as_str()));
            t
        },
        Card::ToolConfirm(d) => {
            proof {
                lemma_items_bytes_nonneg(d@.items);
            }
            let mut t = byte_count(d.call_id.as_str());
            t = sat_add(t, byte_count(d.tool_name.as_str()));
            t = sat_add(t, items_byte_count(&d.items));
            t = sat_add(t, byte_count(d.input_summary.as_str()));
            t = sat_add(t, byte_count(d.input_json.as_str()));
            t = sat_add(t, byte_count(d.question.as_str()));
            t = sat_add(t, byte_count(d.status.as_str()));
            t
        },
        Card::AcpPermission(d) => {
            proof {
                lemma_options_bytes_nonneg(d@.options);
            }
            let mut t = byte_count(d.request_id.as_str());
            t = sat_add(t, byte_count(d.session_id.as_str()));
            t = sat_add(t, opt_byte_count(&d.tool_call_id));
            t = sat_add(t, byte_count(d.tool_name.as_str()));
            t = sat_add(t, byte_count(d.summary.as_str()));
            t = sat_add(t, byte_count(d.details_json.as_str()));
            t = sat_add(t, options_byte_count(&d.options));
            t = sat_add(t, byte_count(d.status.as_str()));
            t = sat_add(t, byte_count(d.selected_option_name.as_str()));
            t
        },
        Card::SubAgent(d) => {
            let mut t = byte_count(d.subagent_id.as_str());
            t = sat_add(t, byte_count(d.name.as_str()));
            t = sat_add(t, byte_count(d.task.as_str()));
            t = sat_add(t, byte_count(d.summary.as_str()));
            t
        },
        Card::Other(kind) => byte_count(kind.as_str()),
    }
}

/// The text bytes of one message, saturating at `usize::MAX`.
pub fn message_text_bytes(message: &ChatMessage) -> (r: usize)
    ensures
        r == sat(message_bytes(message@)),
{
    proof {
        lemma_message_bytes_nonneg(message@);
    }
    let base = sat_add(
        byte_count(message.content.as_str()),
        byte_count(message.reasoning_content.as_str()),
    );
    match &message.variant {
        MessageVariant::Status { title, .. } => sat_add(base, byte_count(title.as_str())),
        MessageVariant::Card(c) => {
            proof {
                lemma_card_bytes_nonneg(c@);
            }
            sat_add(base, card_byte_count(c))
        },
        MessageVariant::Text => base,
    }
}

/// The text bytes of a list of messages, saturating at `usize::MAX`.
pub fn transcript_text_bytes(messages: &Vec<ChatMessage>) -> (r: usize)
    ensures
        r == sat(messages_bytes(message_views(messages@))),
{
    let ghost v = message_views(messages@);
    let mut total: usize = 0;
    let mut i: usize = 0;
    let ghost mut sum: int = 0;
    while i < messages.len()
        invariant
            v == message_views(messages@),
            i <= messages@.len(),
            sum == messages_bytes(v.take(i as int)),
            total == sat(sum),
            sum >= 0,
        decreases messages@.len() - i,
    {
        let b = message_text_bytes(&messages[i]);
        proof {
            assert(v.take(i + 1).drop_last() =~= v.take(i as int));
            assert(v.take(i + 1).last() == messages@[i as int]@);
            lemma_message_bytes_nonneg(messages@[i as int]@);
        }
        total = sat_add(total, b);
        proof {
            sum = sum + message_bytes(messages@[i as int]@);
        }
        i = i + 1;
    }
    proof {
        assert(v.take(messages@.len() as int) =~= v);
    }
    total
}

pub open spec fn bounded_opt(o: Option<Seq<char>>, max: int) -> Option<Seq<char>> {
    match o {
        Some(s) => Some(truncated_recent(s, max)),
        None => None,
    }
}

fn bound_opt(o: &mut Option<String>, max_bytes: usize)
    ensures
        opt_view(*final(o)) == bounded_opt(opt_view(*old(o)), max_bytes as int),
{
    if let Some(mut text) = o.take() {
        truncate_to_recent(&mut text, max_bytes);
        *o = Some(text);
    }
}

/// A tool card with every text field but the call id cut to its most
/// recent `max` bytes.
pub open spec fn tool_card_bounded(d: ToolCardView, max: int) -> ToolCardView {
    ToolCardView {
        tool_name: truncated_recent(d.tool_name, max),
        target_id: bounded_opt(d.target_id, max),
        target_label: bounded_opt(d.target_label, max),
        input_summary: truncated_recent(d.input_summary, max),
        input_json: truncated_recent(d.input_json, max),
        summary: truncated_recent(d.summary, max),
        data_text: truncated_recent(d.data_text, max),
        ..d
    }
}

pub open spec fn item_bounded(i: ConfirmItemView, max: int) -> ConfirmItemView {
    ConfirmItemView {
        tool_name: truncated_recent(i.tool_name, max),
        input_summary: truncated_recent(i.input_summary, max),
        input_json: truncated_recent(i.input_json, max),
        ..i
    }
}

pub open spec fn min_int(a: int, b: int) -> int {
    if a < b {
        a
    } else {
        b
    }
}

/// A confirmation card with its text fields cut to `max` bytes, at most 64
/// items kept, and item fields cut to `min(max, 8192)`.
pub open spec fn confirm_bounded(d: ToolConfirmView, max: int) -> ToolConfirmView {
    let item_max = min_int(max, MAX_CARD_ITEM_FIELD_BYTES as int);
    ToolConfirmView {
        tool_name: truncated_recent(d.tool_name, max),
        input_summary: truncated_recent(d.input_summary, max),
        input_json: truncated_recent(d.input_json, max),
        question: truncated_recent(d.question, max),
        items: Seq::new(
            min_int(d.items.len() as int, MAX_CARD_COLLECTION_ITEMS as int) as nat,
            |k: int| item_bounded(d.items[k], item_max),
        ),
        ..d
    }
}

/// An ACP permission card with its text fields cut to `max` bytes, at most
/// 64 options kept, and option names cut to `min(max, 8192)`.
pub open spec fn acp_bounded(d: AcpPermissionView, max: int) -> AcpPermissionView {
    let item_max = min_int(max, MAX_CARD_ITEM_FIELD_BYTES as int);
    AcpPermissionView {
        tool_name: truncated_recent(d.tool_name, max),
        summary: truncated_recent(d.summary, max),
        details_json: truncated_recent(d.details_json, max),
        selected_option_name: truncated_recent(d.selected_option_name, max),
        options: Seq::new(
            min_int(d.options.len() as int, MAX_CARD_COLLECTION_ITEMS as int) as nat,
            |k: int| PermissionOptionView { name: truncated_recent(d.options[k].name, item_max), ..d.options[k] },
        ),
        ..d
    }
}

/// A sub-agent card with its name, task and summary cut to `max` bytes.
pub open spec fn subagent_bounded(d: SubAgentView, max: int) -> SubAgentView {
    SubAgentView {
        name: truncated_recent(d.name, max),
        task: truncated_recent(d.task, max),
        summary: truncated_recent(d.summary, max),
        ..d
    }
}

/// A card bounded by the rule of its kind; other cards are unchanged.
pub open spec fn card_bounded(c: CardView, max: int) -> CardView {
    match c {
        CardView::Tool(d) => CardView::Tool(tool_card_bounded(d, max)),
        CardView::ToolConfirm(d) => CardView::ToolConfirm(confirm_bounded(d, max)),
        CardView::AcpPermission(d) => CardView::AcpPermission(acp_bounded(d, max)),
        CardView::SubAgent(d) => CardView::SubAgent(subagent_bounded(d, max)),
        CardView::Other(k) => CardView::Other(k),
    }
}

/// A message with its text bounded: the content of a plain text message,
/// the reasoning and a status title to `max` bytes; card fields to
/// `min(max, 65536)` bytes.
pub open spec fn message_fields_truncated(m: MessageView, max: int) -> MessageView {
    MessageView {
        content: match m.variant {
            VariantView::Text => truncated_recent(m.content, max),
            _ => m.content,
        },
        reasoning_content: truncated_recent(m.reasoning_content, max),
        variant: match m.variant {
            VariantView::Text => VariantView::Text,
            VariantView::Status { title, is_done } => VariantView::Status {
                title: truncated_recent(title, max),
                is_done,
            },
            VariantView::Card(c) => VariantView::Card(
                card_bounded(c, min_int(max, MAX_CARD_FIELD_BYTES as int)),
            ),
        },
        ..m
    }
}

pub fn bound_tool_card_data(data: &mut ToolCardData, max_bytes: usize)
    ensures
        final(data)@ == tool_card_bounded(old(data)@, max_bytes as int),
{
    truncate_to_recent(&mut data.tool_name, max_bytes);
    bound_opt(&mut data.target_id, max_bytes);
    bound_opt(&mut data.target_label, max_bytes);
    truncate_to_recent(&mut data.input_summary, max_bytes);
    truncate_to_recent(&mut data.input_json, max_bytes);
    truncate_to_recent(&mut data.summary, max_bytes);
    truncate_to_recent(&mut data.data_text, max_bytes);
}

pub fn bound_tool_confirm_data(data: &mut ToolConfirmCardData, max_bytes: usize)
    ensures
        final(data)@ == confirm_bounded(old(data)@, max_bytes as int),
{
    let ghost old_items = data@.items;
    truncate_to_recent(&mut data.tool_name, max_bytes);
    truncate_to_recent(&mut data.input_summary, max_bytes);
    truncate_to_recent(&mut data.input_json, max_bytes);
    truncate_to_recent(&mut data.question, max_bytes);
    let item_max = if max_bytes < MAX_CARD_ITEM_FIELD_BYTES {
        max_bytes
    } else {
        MAX_CARD_ITEM_FIELD_BYTES
    };
    let keep = if data.items.len() < MAX_CARD_COLLECTION_ITEMS {
        data.items.len()
    } else {
        MAX_CARD_COLLECTION_ITEMS
    };
    let mut items: Vec<ToolConfirmItemData> = Vec::new();
    let mut i: usize = 0;
    while i < keep
        invariant
            keep <= data.items@.len(),
            old_items == data@.items,
            i <= keep,
            items@.len() == i,
            forall|k: int|
                0 <= k < i ==> (#[trigger] items@[k])@ == item_bounded(
                    old_items[k],
                    item_max as int,
                ),
        decreases keep - i,
    {
        let item = &data.items[i];
        let mut tool_name = item.tool_name.clone();
        let mut input_summary = item.input_summary.clone();
        let mut input_json = item.input_json.clone();
        truncate_to_recent(&mut tool_name, item_max);
        truncate_to_recent(&mut input_summary, item_max);
        truncate_to_recent(&mut input_json, item_max);
        items.push(
            ToolConfirmItemData { call_id: item.call_id.clone(), tool_name, input_summary, input_json },
        );
        proof {
            assert(old_items[i as int] == item@);
        }
        i = i + 1;
    }
    data.items = items;
    proof {
        assert(data@.items =~= confirm_bounded(old(data)@, max_bytes as int).items);
    }
}

pub fn bound_acp_permission_data(data: &mut AcpPermissionCardData, max_bytes: usize)
    ensures
        final(data)@ == acp_bounded(old(data)@, max_bytes as int),
{
    let ghost old_options = data@.options;
    truncate_to_recent(&mut data.tool_name, max_bytes);
    truncate_to_recent(&mut data.summary, max_bytes);
    truncate_to_recent(&mut data.details_json, max_bytes);
    truncate_to_recent(&mut data.selected_option_name, max_bytes);
    let item_max = if max_bytes < MAX_CARD_ITEM_FIELD_BYTES {
        max_bytes
    } else {
        MAX_CARD_ITEM_FIELD_BYTES
    };
    let keep = if data.options.len() < MAX_CARD_COLLECTION_ITEMS {
        data.options.len()
    } else {
        MAX_CARD_COLLECTION_ITEMS
    };
    let mut options: Vec<AcpPermissionOptionData> = Vec::new();
    let mut i: usize = 0;
    while i < keep
        invariant
            keep <= data.options@.len(),
            old_options == data@.options,
            i <= keep,
            options@.len() == i,
            forall|k: int|
                0 <= k < i ==> (#[trigger] options@[k])@ == (PermissionOptionView {
                    name: truncated_recent(old_options[k].name, item_max as int),
                    ..old_options[k]
                }),
        decreases keep - i,
    {
        let option = &data.options[i];
        let mut name = option.name.clone();
        truncate_to_recent(&mut name, item_max);
        options.push(
            AcpPermissionOptionData {
                option_id: option.option_id.clone(),
                name,
                kind: option.kind.clone(),
            },
        );
        proof {
            assert(old_options[i as int] == option@);
        }
        i = i + 1;
    }
    data.options = options;
    proof {
        assert(data@.options =~= acp_bounded(old(data)@, max_bytes as int).options);
    }
}

pub fn bound_subagent_data(data: &mut SubAgentCardData, max_bytes: usize)
    ensures
        final(data)@ == subagent_bounded(old(data)@, max_bytes as int),
{
    truncate_to_recent(&mut data.name, max_bytes);
    truncate_to_recent(&mut data.task, max_bytes);
    truncate_to_recent(&mut data.summary, max_bytes);
}

/// A message that must survive budget eviction: the streaming message, the
/// active status or ACP status, a message still streaming, a running tool
/// or sub-agent card, a pending confirmation or permission card, or an
/// unfinished status.
pub open spec fn is_protected(
    m: MessageView,
    streaming_id: Option<u64>,
    active_status_id: Option<u64>,
    acp_status_id: Option<u64>,
) -> bool {
    ||| streaming_id == Some(m.id)
    ||| active_status_id == Some(m.id)
    ||| acp_status_id == Some(m.id)
    ||| m.is_streaming
    ||| match m.variant {
        VariantView::Card(CardView::Tool(d)) => d.running,
        VariantView::Card(CardView::ToolConfirm(d)) => d.status == "pending"@,
        VariantView::Card(CardView::AcpPermission(d)) => d.status == "pending"@,
        VariantView::Card(CardView::SubAgent(d)) => d.running,
        VariantView::Status { is_done, .. } => !is_done,
        _ => false,
    }
}

pub fn is_pending(status: &String) -> (r: bool)
    ensures
        r == (status@ == "pending"@),
{
    crate::text::str_eq(status.as_str(), "pending")
}

pub fn message_is_protected(
    message: &ChatMessage,
    streaming_id: Option<u64>,
    active_status_id: Option<u64>,
    acp_status_id: Option<u64>,
) -> (r: bool)
    ensures
        r == is_protected(message@, streaming_id, active_status_id, acp_status_id),
{
    if streaming_id == Some(message.id) || active_status_id == Some(message.id) || acp_status_id
        == Some(message.id) || message.is_streaming {
        return true;
    }
    match &message.variant {
        MessageVariant::Card(Card::Tool(d)) => d.running,
        MessageVariant::Card(Card::ToolConfirm(d)) => is_pending(&d.status),
        MessageVariant::Card(Card::AcpPermission(d)) => is_pending(&d.status),
        MessageVariant::Card(Card::SubAgent(d)) => d.running,
        MessageVariant::Status { is_done, .. } => !*is_done,
        _ => false,
    }
}

/// A card with its fields bounded by the rule of its kind.
pub fn truncate_card_fields(card: Card, max_bytes: usize) -> (r: Card)
    ensures
        r@ == card_bounded(card@, max_bytes as int),
{
    match card {
        Card::Tool(mut d) => {
            bound_tool_card_data(&mut d, max_bytes);
            Card::Tool(d)
        },
        Card::ToolConfirm(mut d) => {
            bound_tool_confirm_data(&mut d, max_bytes);
            Card::ToolConfirm(d)
        },
        Card::AcpPermission(mut d) => {
            bound_acp_permission_data(&mut d, max_bytes);
            Card::AcpPermission(d)
        },
        Card::SubAgent(mut d) => {
            bound_subagent_data(&mut d, max_bytes);
            Card::SubAgent(d)
        },
        Card::Other(kind) => Card::Other(kind),
    }
}

/// Bounds the text of one message (see [`message_fields_truncated`]).
pub fn truncate_message_fields(message: &mut ChatMessage, max_bytes: usize)
    ensures
        final(message)@ == message_fields_truncated(old(message)@, max_bytes as int),
{
    let is_text = match &message.variant {
        MessageVariant::Text => true,
        _ => false,
    };
    if is_text {
        truncate_to_recent(&mut message.content, max_bytes);
    }
    truncate_to_recent(&mut message.reasoning_content, max_bytes);
    let card_max = if max_bytes < MAX_CARD_FIELD_BYTES {
        max_bytes
    } else {
        MAX_CARD_FIELD_BYTES
    };
    let mut variant = MessageVariant::Text;
    std::mem::swap(&mut variant, &mut message.variant);
    let new_variant = match variant {
        MessageVariant::Text => MessageVariant::Text,
        MessageVariant::Status { mut title, is_done } => {
            truncate_to_recent(&mut title, max_bytes);
            MessageVariant::Status { title, is_done }
        },
        MessageVariant::Card(card) => MessageVariant::Card(truncate_card_fields(card, card_max)),
    };
    message.variant = new_variant;
}

pub fn clone_opt(o: &Option<String>) -> (r: Option<String>)
    ensures
        opt_view(r) == opt_view(*o),
{
    match o {
        Some(s) => Some(s.clone()),
        None => None,
    }
}

impl ToolCardData {
    pub fn clone_data(&self) -> (r: Self)
        ensures
            r@ == self@,
    {
        ToolCardData {
            call_id: self.call_id.clone(),
            tool_name: self.tool_name.clone(),
            target_id: clone_opt(&self.target_id),
            target_label: clone_opt(&self.target_label),
            input_summary: self.input_summary.clone(),
            input_json: self.input_json.clone(),
            running: self.running,
            success: self.success,
            summary: self.summary.clone(),
            data_text: self.data_text.clone(),
        }
    }
}

impl ToolConfirmItemData {
    pub fn clone_data(&self) -> (r: Self)
        ensures
            r@ == self@,
    {
        ToolConfirmItemData {
            call_id: self.call_id.clone(),
            tool_name: self.tool_name.clone(),
            input_summary: self.input_summary.clone(),
            input_json: self.input_json.clone(),
        }
    }
}

impl ToolConfirmCardData {
    pub fn clone_data(&self) -> (r: Self)
        ensures
            r@ == self@,
    {
        let mut items: Vec<ToolConfirmItemData> = Vec::new();
        let n = self.items.len();
        let mut i: usize = 0;
        while i < n
            invariant
                n == self.items@.len(),
                i <= n,
                items@.len() == i,
                forall|j: int| 0 <= j < i ==> (#[trigger] items@[j])@ == self.items@[j]@,
            decreases n - i,
        {
            items.push(self.items[i].clone_data());
            i = i + 1;
        }
        let r = ToolConfirmCardData {
            call_id: self.call_id.clone(),
            tool_name: self.tool_name.clone(),
            items,
            input_summary: self.input_summary.clone(),
            input_json: self.input_json.clone(),
            question: self.question.clone(),
            status: self.status.clone(),
        };
        proof {
            assert(r@.items =~= self@.items);
        }
        r
    }
}

impl AcpPermissionOptionData {
    pub fn clone_data(&self) -> (r: Self)
        ensures
            r@ == self@,
    {
        AcpPermissionOptionData {
            option_id: self.option_id.clone(),
            name: self.name.clone(),
            kind: self.kind.clone(),
        }
    }
}

impl AcpPermissionCardData {
    pub fn clone_data(&self) -> (r: Self)
        ensures
            r@ == self@,
    {
        let mut options: Vec<AcpPermissionOptionData> = Vec::new();
        let n = self.options.len();
        let mut i: usize = 0;
        while i < n
            invariant
                n == self.options@.len(),
                i <= n,
                options@.len() == i,
                forall|j: int| 0 <= j < i ==> (#[trigger] options@[j])@ == self.options@[j]@,
            decreases n - i,
        {
            options.push(self.options[i].clone_data());
            i = i + 1;
        }
        let r = AcpPermissionCardData {
            request_id: self.request_id.clone(),
            session_id: self.session_id.clone(),
            tool_call_id: clone_opt(&self.tool_call_id),
            tool_name: self.tool_name.clone(),
            summary: self.summary.clone(),
            details_json: self.details_json.clone(),
            options,
            status: self.status.clone(),
            selected_option_name: self.selected_option_name.clone(),
        };
        proof {
            assert(r@.options =~= self@.options);
        }
        r
    }
}

impl SubAgentCardData {
    pub fn clone_data(&self) -> (r: Self)
        ensures
            r@ == self@,
    {
        SubAgentCardData {
            subagent_id: self.subagent_id.clone(),
            name: self.name.clone(),
            task: self.task.clone(),
            running: self.running,
            success: self.success,
            summary: self.summary.clone(),
        }
    }
}

} // verus!
