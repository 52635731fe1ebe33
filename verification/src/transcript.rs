//! The agent conversation transcript: runtime events are reduced into a list
//! of renderable messages, kept within a message count and text byte budget
//! by evicting the oldest completed messages first.  Every update is proved
//! to follow the model in `transcript_model`.
use vstd::prelude::*;

use crate::budget::{append_bounded, byte_count, truncate_chars};
use crate::cards::{
    bound_acp_permission_data, bound_subagent_data, bound_tool_card_data,
    bound_tool_confirm_data, clone_opt, is_pending, is_protected, lemma_messages_bytes_nonneg,
    message_is_protected, message_views, opt_view, transcript_text_bytes, truncate_message_fields,
    AcpPermissionCardData, AcpPermissionOptionData, Card, ChatMessage, ChatRole, ConfirmItemView,
    MessageVariant, MessageView, SubAgentCardData, SubAgentView, ToolCardData,
    ToolConfirmCardData, ToolConfirmItemData, MAX_CARD_FIELD_BYTES,
};
use crate::events::{
    ToolArguments,
    block_views, input_opt_view, plan_to_card, AcpPermissionRequest, BlockView, ChartBlock,
    HistoryItem, Plan, PlanCardData, RuntimeEvent, ToolInputDisplay, ToolObservation,
};
use crate::transcript_model::{
    str_hash,
    bump, clear_if, eviction_of, evict, evict_step, finish_status, first_index, found_by_id,
    id_other_than, input_call_other_than, inputs_after_removal, inputs_without, is_first, is_last,
    key_matches, key_pred, last_index, lemma_first_index_is, lemma_first_index_none,
    lemma_last_index_is, lemma_last_index_none, over_budget, push_message, remove_at,
    status_upserted, truncate_all, update_message, victim, delta_applied, with_eviction, enforced,
    MessageKeyView, TerminalKeyView, SegmentView, blocks_valid, text_segment, segments_from,
    assistant_segments, lemma_segments_step, lemma_segments_end, segment_messages, bump_n,
    finalized, segment_closed, TranscriptBudget, TranscriptState,
    MAX_TRANSCRIPT_FIELD_BYTES, MAX_TRANSCRIPT_MESSAGES, MAX_TRANSCRIPT_TEXT_BYTES,
    acp_of, subagent_of, tool_of, acp_pushed, acp_request_view, acp_updated, applied, card_field_limit, cleared, confirm_input,
    confirm_pushed, confirm_resolved, delegate_args, delegate_tool, find_subagent, handled,
    has_pending_acp, has_pending_confirm, history_applied, history_item, input_cached,
    is_terminal_exec_tool, field_key_is, string_field, label_of, loaded, not_running, observation_applied,
    option_status, pair_key_is, panel_upserted, public_mcp_pushed, recorded, starts_with,
    subagent_card_replaced, subagent_finished, subagent_id_is, subagent_pushed, subagent_updated,
    system_pushed, terminal_key, tool_call_pushed, tool_finished, trim_subagents, user_pushed,
    MAX_ACTIVE_SUBAGENTS, MAX_CACHED_TOOL_INPUTS, MAX_CACHED_TOOL_INPUT_BYTES, MAX_DATA_CHARS,
    MAX_TERMINAL_EVENTS, MAX_TERMINAL_EXEC_DATA_CHARS,
};

verus! {

/// The key under which a terminal event is de-duplicated: an approval
/// request (turn, pending call, hash of the question) or the end of a turn.
#[derive(Debug)]
pub enum TerminalEventKey {
    AwaitingInput { turn_id: String, call_id: Option<String>, question_hash: u64 },
    Final(String),
}

impl View for TerminalEventKey {
    type V = TerminalKeyView;

    open spec fn view(&self) -> TerminalKeyView {
        match *self {
            TerminalEventKey::AwaitingInput { turn_id, call_id, question_hash } => {
                TerminalKeyView::AwaitingInput {
                    turn_id: turn_id@,
                    call_id: opt_view(call_id),
                    question_hash,
                }
            },
            TerminalEventKey::Final(t) => TerminalKeyView::Final(t@),
        }
    }
}

/// What a message lookup matches on.
enum MessageKey {
    Id(u64),
    ToolCard(String),
    ConfirmCard(String),
    AcpCard(String),
    SubAgentCard(String),
}

impl View for MessageKey {
    type V = MessageKeyView;

    closed spec fn view(&self) -> MessageKeyView {
        match *self {
            MessageKey::Id(id) => MessageKeyView::Id(id),
            MessageKey::ToolCard(c) => MessageKeyView::ToolCard(c@),
            MessageKey::ConfirmCard(c) => MessageKeyView::ConfirmCard(c@),
            MessageKey::AcpCard(c) => MessageKeyView::AcpCard(c@),
            MessageKey::SubAgentCard(c) => MessageKeyView::SubAgentCard(c@),
        }
    }
}

fn message_matches(m: &ChatMessage, key: &MessageKey) -> (r: bool)
    ensures
        r == key_matches(key@, m@),
{
    match key {
        MessageKey::Id(id) => m.id == *id,
        MessageKey::ToolCard(c) => match &m.variant {
            MessageVariant::Card(Card::Tool(d)) => crate::text::str_eq(d.call_id.as_str(), c.as_str()),
            _ => false,
        },
        MessageKey::ConfirmCard(c) => match &m.variant {
            MessageVariant::Card(Card::ToolConfirm(d)) => crate::text::str_eq(
                d.call_id.as_str(),
                c.as_str(),
            ),
            _ => false,
        },
        MessageKey::AcpCard(c) => match &m.variant {
            MessageVariant::Card(Card::AcpPermission(d)) => crate::text::str_eq(
                d.request_id.as_str(),
                c.as_str(),
            ),
            _ => false,
        },
        MessageKey::SubAgentCard(c) => match &m.variant {
            MessageVariant::Card(Card::SubAgent(d)) => crate::text::str_eq(
                d.subagent_id.as_str(),
                c.as_str(),
            ),
            _ => false,
        },
    }
}

pub open spec fn opt_int(o: Option<usize>) -> Option<int> {
    match o {
        Some(i) => Some(i as int),
        None => None,
    }
}

/// A piece of an assistant answer: markdown text, or a chart specification.
pub enum Segment {
    Text(String),
    Chart(String),
}

impl View for Segment {
    type V = SegmentView;

    open spec fn view(&self) -> SegmentView {
        match *self {
            Segment::Text(t) => SegmentView::Text(t@),
            Segment::Chart(c) => SegmentView::Chart(c@),
        }
    }
}

pub open spec fn seg_views(s: Seq<Segment>) -> Seq<SegmentView> {
    s.map_values(|g: Segment| g@)
}

/// The chart blocks lie inside the text, in order, without overlapping.
pub fn blocks_are_valid(text: &str, blocks: &Vec<ChartBlock>) -> (r: bool)
    ensures
        r == blocks_valid(text@, block_views(blocks@)),
{
    let ghost bv = block_views(blocks@);
    let len = text.unicode_len();
    let n = blocks.len();
    let mut last_end: usize = 0;
    let mut i: usize = 0;
    while i < n
        invariant
            bv == block_views(blocks@),
            n == bv.len(),
            len == text@.len(),
            i <= n,
            forall|k: int| 0 <= k < i ==> 0 <= (#[trigger] bv[k]).start <= bv[k].end <= len,
            forall|j: int, k: int| 0 <= j < k < i ==> (#[trigger] bv[j]).end <= (#[trigger] bv[k]).start,
            forall|j: int| 0 <= j < i ==> (#[trigger] bv[j]).end <= last_end,
            i > 0 ==> last_end == bv[i - 1].end,
        decreases n - i,
    {
        let b = &blocks[i];
        proof {
            assert(bv[i as int] == blocks@[i as int]@);
        }
        if b.start > b.end || b.end > len {
            proof {
                assert(!(0 <= bv[i as int].start <= bv[i as int].end <= len));
            }
            return false;
        }
        if i > 0 && last_end > b.start {
            proof {
                assert(bv[i - 1].end > bv[i as int].start);
            }
            return false;
        }
        last_end = b.end;
        i = i + 1;
    }
    true
}

/// Adds the trimmed text between two character positions as a segment,
/// unless nothing is left of it.
fn push_text_segment(out: &mut Vec<Segment>, text: &str, from: usize, to: usize)
    requires
        from <= to <= text@.len(),
    ensures
        seg_views(final(out)@) == seg_views(old(out)@) + text_segment(
            text@.subrange(from as int, to as int),
        ),
{
    let piece = crate::text::trim(text.substring_char(from, to));
    let ghost prev = out@;
    if piece.unicode_len() > 0 {
        out.push(Segment::Text(piece.to_owned()));
        proof {
            assert(seg_views(out@) =~= seg_views(prev).push(SegmentView::Text(piece@)));
        }
    } else {
        proof {
            assert(seg_views(out@) =~= seg_views(prev) + Seq::<SegmentView>::empty());
        }
    }
}

/// The segments an answer is shown as (see `assistant_segments`).
pub fn chart_segments(text: &str, blocks: &Vec<ChartBlock>) -> (r: Vec<Segment>)
    ensures
        seg_views(r@) == assistant_segments(text@, block_views(blocks@)),
{
    let mut out: Vec<Segment> = Vec::new();
    if blocks.len() == 0 || !blocks_are_valid(text, blocks) {
        out.push(Segment::Text(text.to_owned()));
        proof {
            assert(seg_views(out@) =~= seq![SegmentView::Text(text@)]);
        }
        return out;
    }
    let ghost bv = block_views(blocks@);
    let ghost t = text@;
    let len = text.unicode_len();
    let mut cursor: usize = 0;
    let n = blocks.len();
    let mut k: usize = 0;
    proof {
        assert(bv.skip(0) =~= bv);
        assert(seg_views(out@) + segments_from(t, bv.skip(0), 0) =~= segments_from(t, bv, 0));
    }
    while k < n
        invariant
            bv == block_views(blocks@),
            t == text@,
            len == t.len(),
            n == bv.len(),
            k <= n,
            blocks_valid(t, bv),
            cursor <= len,
            k < n ==> cursor <= bv[k as int].start,
            seg_views(out@) + segments_from(t, bv.skip(k as int), cursor as int) == segments_from(
                t,
                bv,
                0,
            ),
        decreases n - k,
    {
        let b = &blocks[k];
        proof {
            assert(bv[k as int] == blocks@[k as int]@);
            lemma_segments_step(t, bv, k as int, cursor as int);
        }
        let ghost before = seg_views(out@);
        push_text_segment(&mut out, text, cursor, b.start);
        out.push(Segment::Chart(b.code.clone()));
        proof {
            let mid = text_segment(t.subrange(cursor as int, bv[k as int].start));
            assert(seg_views(out@) =~= before + mid + seq![SegmentView::Chart(bv[k as int].code)]);
            assert(seg_views(out@) + segments_from(t, bv.skip(k + 1), bv[k as int].end)
                =~= before + segments_from(t, bv.skip(k as int), cursor as int));
            if k + 1 < n {
                assert(bv[k as int].end <= bv[k + 1].start);
            }
        }
        cursor = b.end;
        k = k + 1;
    }
    proof {
        lemma_segments_end(t, bv, cursor as int);
    }
    let ghost before = seg_views(out@);
    push_text_segment(&mut out, text, cursor, len);
    proof {
        assert(seg_views(out@) =~= before + segments_from(t, bv.skip(n as int), cursor as int));
    }
    out
}

/// The agent conversation transcript.
pub struct AgentTranscript {
    /// The messages to render.
    pub messages: Vec<ChatMessage>,
    streaming_id: Option<u64>,
    active_status_id: Option<u64>,
    latest_plan: Option<PlanCardData>,
    active_subagents: Vec<SubAgentCardData>,
    resource_labels: Vec<(String, String)>,
    tool_inputs: Vec<(String, String)>,
    terminal_events: Vec<TerminalEventKey>,
    budget: TranscriptBudget,
    next_id: u64,
}

/// The id and label of each resource, in order.
pub open spec fn resource_id_labels(rs: Seq<crate::resources::ResourceView>) -> Seq<(Seq<char>, Seq<char>)> {
    rs.map_values(|r: crate::resources::ResourceView| (r.id, r.label))
}

pub open spec fn pair_views(s: Seq<(String, String)>) -> Seq<(Seq<char>, Seq<char>)> {
    s.map_values(|p: (String, String)| (p.0@, p.1@))
}

pub open spec fn subagent_views(s: Seq<SubAgentCardData>) -> Seq<SubAgentView> {
    s.map_values(|d: SubAgentCardData| d@)
}

pub open spec fn key_views(s: Seq<TerminalEventKey>) -> Seq<TerminalKeyView> {
    s.map_values(|k: TerminalEventKey| k@)
}

fn string_field_of<'a>(arguments: &'a ToolArguments, key: &str) -> (r: Option<&'a str>)
    ensures
        match r {
            Some(v) => string_field(arguments@, key@) == Some(v@),
            None => string_field(arguments@, key@) is None,
        },
{
    let ghost fs = arguments@;
    let n = arguments.string_fields.len();
    let mut i: usize = 0;
    while i < n
        invariant
            fs == arguments@,
            n == fs.len(),
            i <= n,
            forall|j: int| 0 <= j < i ==> !field_key_is(key@)(#[trigger] fs[j]),
        decreases n - i,
    {
        if crate::text::str_eq(arguments.string_fields[i].0.as_str(), key) {
            proof {
                assert(is_first(fs, field_key_is(key@), i as int));
                lemma_first_index_is(fs, field_key_is(key@), i as int);
            }
            return Some(arguments.string_fields[i].1.as_str());
        }
        i = i + 1;
    }
    proof {
        lemma_first_index_none(fs, field_key_is(key@));
    }
    None
}

/// The sub-agent name and task of a `delegate_task` call's arguments: the
/// `name` and `task` string fields, trimmed, when both are non-empty.
pub fn delegate_task_args(arguments: &ToolArguments) -> (r: Option<(String, String)>)
    ensures
        match r {
            Some((n, t)) => delegate_args(arguments@) == Some((n@, t@)),
            None => delegate_args(arguments@) is None,
        },
{
    proof {
        reveal_strlit("name");
        reveal_strlit("task");
    }
    let name = match string_field_of(arguments, "name") {
        Some(n) => n,
        None => return None,
    };
    let task = match string_field_of(arguments, "task") {
        Some(t) => t,
        None => return None,
    };
    let name = crate::text::trim(name);
    let task = crate::text::trim(task);
    if name.unicode_len() == 0 || task.unicode_len() == 0 {
        return None;
    }
    Some((name.to_owned(), task.to_owned()))
}

fn is_delegate_task_tool(tool_name: &str) -> (r: bool)
    ensures
        r == (tool_name@ == delegate_tool()),
{
    proof {
        reveal_strlit("delegate_task");
    }
    crate::text::str_eq(tool_name, "delegate_task")
}

/// The tool runs terminal commands, whose output cards keep more text.
pub fn is_terminal_exec_tool_name(tool_name: &str) -> (r: bool)
    ensures
        r == is_terminal_exec_tool(tool_name@),
{
    proof {
        reveal_strlit("terminal_exec");
        reveal_strlit("terminal.exec");
    }
    crate::text::str_eq(tool_name, "terminal_exec") || crate::text::str_eq(tool_name, "terminal.exec")
}

fn starts_with_str(s: &str, prefix: &str) -> (r: bool)
    ensures
        r == starts_with(s@, prefix@),
{
    let n = prefix.unicode_len();
    if n > s.unicode_len() {
        return false;
    }
    let mut i: usize = 0;
    while i < n
        invariant
            n == prefix@.len(),
            n <= s@.len(),
            i <= n,
            forall|k: int| 0 <= k < i ==> s@[k] == prefix@[k],
        decreases n - i,
    {
        if s.get_char(i) != prefix.get_char(i) {
            proof {
                assert(s@.subrange(0, n as int)[i as int] != prefix@[i as int]);
            }
            return false;
        }
        i = i + 1;
    }
    proof {
        assert(s@.subrange(0, n as int) =~= prefix@);
    }
    true
}

fn opt_str_eq(a: &Option<String>, b: &Option<String>) -> (r: bool)
    ensures
        r == (opt_view(*a) == opt_view(*b)),
{
    match (a, b) {
        (Some(x), Some(y)) => crate::text::str_eq(x.as_str(), y.as_str()),
        (None, None) => true,
        _ => false,
    }
}

fn terminal_key_eq(a: &TerminalEventKey, b: &TerminalEventKey) -> (r: bool)
    ensures
        r == (a@ == b@),
{
    match (a, b) {
        (
            TerminalEventKey::AwaitingInput { turn_id: t1, call_id: c1, question_hash: q1 },
            TerminalEventKey::AwaitingInput { turn_id: t2, call_id: c2, question_hash: q2 },
        ) => crate::text::str_eq(t1.as_str(), t2.as_str()) && opt_str_eq(c1, c2) && *q1 == *q2,
        (TerminalEventKey::Final(t1), TerminalEventKey::Final(t2)) => crate::text::str_eq(
            t1.as_str(),
            t2.as_str(),
        ),
        _ => false,
    }
}

/// `std::hash::BuildHasher::hash_one` with `DefaultHasher`: the std hash of
/// a text, as `DefaultHasher::new`, `Hash::hash` and `Hasher::finish` give
/// it. `DefaultHasher::new` is not seeded (all hashers it makes agree), so
/// the result is a function of the text, named `str_hash`; which number it
/// is is not stated.
#[verifier::external_body]
fn stable_hash(value: &str) -> (r: u64)
    ensures
        r == str_hash(value@),
{
    std::hash::BuildHasher::hash_one(
        &std::hash::BuildHasherDefault::<std::collections::hash_map::DefaultHasher>::default(),
        value,
    )
}

/// The key under which an event is de-duplicated, for the events that end
/// or pause a turn.
pub fn terminal_event_key(event: &RuntimeEvent) -> (r: Option<TerminalEventKey>)
    ensures
        match r {
            Some(k) => terminal_key(*event) == Some(k@),
            None => terminal_key(*event) is None,
        },
{
    match event {
        RuntimeEvent::NeedUserInput { turn_id, pending_tool_call_id, question, .. } => Some(
            TerminalEventKey::AwaitingInput {
                turn_id: turn_id.clone(),
                call_id: clone_opt(pending_tool_call_id),
                question_hash: stable_hash(question.as_str()),
            },
        ),
        RuntimeEvent::TurnCompleted { turn_id } => Some(TerminalEventKey::Final(turn_id.clone())),
        RuntimeEvent::TurnCancelled { turn_id, .. } => Some(
            TerminalEventKey::Final(turn_id.clone()),
        ),
        RuntimeEvent::TurnFailed { turn_id, .. } => Some(TerminalEventKey::Final(turn_id.clone())),
        _ => None,
    }
}

fn panel_index(panel: &Vec<SubAgentCardData>, id: &str) -> (r: Option<usize>)
    ensures
        opt_int(r) == first_index(subagent_views(panel@), subagent_id_is(id@)),
        r matches Some(i) ==> i < panel@.len(),
{
    let ghost sv = subagent_views(panel@);
    let ghost p = subagent_id_is(id@);
    let n = panel.len();
    let mut i: usize = 0;
    while i < n
        invariant
            n == panel@.len(),
            sv == subagent_views(panel@),
            p == subagent_id_is(id@),
            i <= n,
            forall|j: int| 0 <= j < i ==> !p(#[trigger] sv[j]),
        decreases n - i,
    {
        proof {
            assert(sv[i as int] == panel@[i as int]@);
        }
        if crate::text::str_eq(panel[i].subagent_id.as_str(), id) {
            proof {
                assert(is_first(sv, p, i as int));
                lemma_first_index_is(sv, p, i as int);
            }
            return Some(i);
        }
        i = i + 1;
    }
    proof {
        lemma_first_index_none(sv, p);
    }
    None
}

fn first_finished(panel: &Vec<SubAgentCardData>) -> (r: Option<usize>)
    ensures
        opt_int(r) == first_index(subagent_views(panel@), not_running()),
        r matches Some(i) ==> i < panel@.len(),
{
    let ghost sv = subagent_views(panel@);
    let ghost p = not_running();
    let n = panel.len();
    let mut i: usize = 0;
    while i < n
        invariant
            n == panel@.len(),
            sv == subagent_views(panel@),
            p == not_running(),
            i <= n,
            forall|j: int| 0 <= j < i ==> !p(#[trigger] sv[j]),
        decreases n - i,
    {
        proof {
            assert(sv[i as int] == panel@[i as int]@);
        }
        if !panel[i].running {
            proof {
                assert(is_first(sv, p, i as int));
                lemma_first_index_is(sv, p, i as int);
            }
            return Some(i);
        }
        i = i + 1;
    }
    proof {
        lemma_first_index_none(sv, p);
    }
    None
}

fn clone_items(items: &Vec<ToolConfirmItemData>) -> (r: Vec<ToolConfirmItemData>)
    ensures
        r@.map_values(|i: ToolConfirmItemData| i@) == items@.map_values(|i: ToolConfirmItemData| i@),
{
    let mut out: Vec<ToolConfirmItemData> = Vec::new();
    let n = items.len();
    let mut i: usize = 0;
    while i < n
        invariant
            n == items@.len(),
            i <= n,
            out@.len() == i,
            forall|j: int| 0 <= j < i ==> (#[trigger] out@[j])@ == items@[j]@,
        decreases n - i,
    {
        out.push(items[i].clone_data());
        i = i + 1;
    }
    proof {
        assert(out@.map_values(|i: ToolConfirmItemData| i@) =~= items@.map_values(
            |i: ToolConfirmItemData| i@,
        ));
    }
    out
}

fn clone_options(options: &Vec<AcpPermissionOptionData>) -> (r: Vec<AcpPermissionOptionData>)
    ensures
        r@.map_values(|o: AcpPermissionOptionData| o@) == options@.map_values(
            |o: AcpPermissionOptionData| o@,
        ),
{
    let mut out: Vec<AcpPermissionOptionData> = Vec::new();
    let n = options.len();
    let mut i: usize = 0;
    while i < n
        invariant
            n == options@.len(),
            i <= n,
            out@.len() == i,
            forall|j: int| 0 <= j < i ==> (#[trigger] out@[j])@ == options@[j]@,
        decreases n - i,
    {
        out.push(options[i].clone_data());
        i = i + 1;
    }
    proof {
        assert(out@.map_values(|o: AcpPermissionOptionData| o@) =~= options@.map_values(
            |o: AcpPermissionOptionData| o@,
        ));
    }
    out
}


impl AgentTranscript {
    /// The transcript as a mathematical value.
    pub closed spec fn state(&self) -> TranscriptState {
        TranscriptState {
            messages: message_views(self.messages@),
            streaming_id: self.streaming_id,
            active_status_id: self.active_status_id,
            plan: match self.latest_plan {
                Some(p) => Some(p@),
                None => None,
            },
            subagents: subagent_views(self.active_subagents@),
            resource_labels: pair_views(self.resource_labels@),
            tool_inputs: pair_views(self.tool_inputs@),
            terminal_events: key_views(self.terminal_events@),
            budget: self.budget,
            next_id: self.next_id,
        }
    }

    /// The messages to render, as the model sees them.
    pub fn message_list(&self) -> (r: &Vec<ChatMessage>)
        ensures
            message_views(r@) == self.state().messages,
    {
        &self.messages
    }

    /// An empty transcript with the given limits.
    pub fn with_limits(max_messages: usize, max_text_bytes: usize, max_field_bytes: usize) -> (r:
        Self)
        ensures
            r.state() == (TranscriptState {
                messages: Seq::empty(),
                streaming_id: None,
                active_status_id: None,
                plan: None,
                subagents: Seq::empty(),
                resource_labels: Seq::empty(),
                tool_inputs: Seq::empty(),
                terminal_events: Seq::empty(),
                budget: TranscriptBudget { max_messages, max_text_bytes, max_field_bytes },
                next_id: 0,
            }),
    {
        let r = AgentTranscript {
            messages: Vec::new(),
            streaming_id: None,
            active_status_id: None,
            latest_plan: None,
            active_subagents: Vec::new(),
            resource_labels: Vec::new(),
            tool_inputs: Vec::new(),
            terminal_events: Vec::new(),
            budget: TranscriptBudget { max_messages, max_text_bytes, max_field_bytes },
            next_id: 0,
        };
        proof {
            assert(r.state().messages =~= Seq::<MessageView>::empty());
            assert(r.state().tool_inputs =~= Seq::<(Seq<char>, Seq<char>)>::empty());
            assert(r.state().resource_labels =~= Seq::<(Seq<char>, Seq<char>)>::empty());
            assert(r.state().terminal_events =~= Seq::<TerminalKeyView>::empty());
            assert(r.state().subagents =~= Seq::<SubAgentView>::empty());
        }
        r
    }

    /// An empty transcript with the default limits: 500 messages, 8 MiB of
    /// text and 1 MiB per field.
    pub fn new() -> (r: Self)
        ensures
            r.state() == (TranscriptState {
                messages: Seq::empty(),
                streaming_id: None,
                active_status_id: None,
                plan: None,
                subagents: Seq::empty(),
                resource_labels: Seq::empty(),
                tool_inputs: Seq::empty(),
                terminal_events: Seq::empty(),
                budget: TranscriptBudget {
                    max_messages: MAX_TRANSCRIPT_MESSAGES,
                    max_text_bytes: MAX_TRANSCRIPT_TEXT_BYTES,
                    max_field_bytes: MAX_TRANSCRIPT_FIELD_BYTES,
                },
                next_id: 0,
            }),
    {
        Self::with_limits(
            MAX_TRANSCRIPT_MESSAGES,
            MAX_TRANSCRIPT_TEXT_BYTES,
            MAX_TRANSCRIPT_FIELD_BYTES,
        )
    }

    // ----- message bookkeeping -----

    /// Adds a message with the next free identifier and returns that identifier.
    fn push_new(
        &mut self,
        role: ChatRole,
        variant: MessageVariant,
        content: String,
        reasoning: String,
        streaming: bool,
    ) -> (id: u64)
        ensures
            id == old(self).state().next_id,
            final(self).state() == push_message(
                old(self).state(),
                role,
                variant@,
                content@,
                reasoning@,
                streaming,
            ),
    {
        let id = self.next_id;
        let ghost prev = self.messages@;
        self.messages.push(
            ChatMessage {
                id,
                role,
                variant,
                content,
                reasoning_content: reasoning,
                is_streaming: streaming,
            },
        );
        self.next_id = if id == u64::MAX {
            0
        } else {
            id + 1
        };
        proof {
            assert(message_views(self.messages@) =~= message_views(prev).push(
                self.messages@.last()@,
            ));
        }
        id
    }

    /// Replaces the message at `index`.
    fn set_message(&mut self, index: usize, m: ChatMessage)
        requires
            index < old(self).messages@.len(),
        ensures
            final(self).state() == update_message(old(self).state(), index as int, m@),
    {
        let ghost prev = self.messages@;
        self.messages.remove(index);
        self.messages.insert(index, m);
        proof {
            assert(self.messages@ =~= prev.update(index as int, m));
            assert(message_views(self.messages@) =~= message_views(prev).update(index as int, m@));
        }
    }

    fn first_message(&self, key: &MessageKey) -> (r: Option<usize>)
        ensures
            opt_int(r) == first_index(self.state().messages, key_pred(key@)),
            r matches Some(i) ==> i < self.messages@.len(),
    {
        let ghost ms = self.state().messages;
        let ghost p = key_pred(key@);
        let n = self.messages.len();
        let mut i: usize = 0;
        while i < n
            invariant
                n == self.messages@.len(),
                ms == self.state().messages,
                p == key_pred(key@),
                i <= n,
                forall|j: int| 0 <= j < i ==> !p(#[trigger] ms[j]),
            decreases n - i,
        {
            if message_matches(&self.messages[i], key) {
                proof {
                    assert(ms[i as int] == self.messages@[i as int]@);
                    assert(is_first(ms, p, i as int));
                    lemma_first_index_is(ms, p, i as int);
                }
                return Some(i);
            }
            proof {
                assert(ms[i as int] == self.messages@[i as int]@);
            }
            i = i + 1;
        }
        proof {
            lemma_first_index_none(ms, p);
        }
        None
    }

    fn last_message(&self, key: &MessageKey) -> (r: Option<usize>)
        ensures
            opt_int(r) == last_index(self.state().messages, key_pred(key@)),
            r matches Some(i) ==> i < self.messages@.len(),
    {
        let ghost ms = self.state().messages;
        let ghost p = key_pred(key@);
        let n = self.messages.len();
        let mut i: usize = n;
        while i > 0
            invariant
                n == self.messages@.len(),
                ms == self.state().messages,
                p == key_pred(key@),
                i <= n,
                forall|j: int| i <= j < n ==> !p(#[trigger] ms[j]),
            decreases i,
        {
            let k = i - 1;
            if message_matches(&self.messages[k], key) {
                proof {
                    assert(ms[k as int] == self.messages@[k as int]@);
                    assert(is_last(ms, p, k as int));
                    lemma_last_index_is(ms, p, k as int);
                }
                return Some(k);
            }
            proof {
                assert(ms[k as int] == self.messages@[k as int]@);
            }
            i = k;
        }
        proof {
            lemma_last_index_none(ms, p);
        }
        None
    }

    /// The status line in progress goes away.
    fn finish_active_status(&mut self)
        ensures
            final(self).state() == finish_status(old(self).state()),
    {
        if let Some(id) = self.active_status_id {
            self.active_status_id = None;
            let mut messages: Vec<ChatMessage> = Vec::new();
            std::mem::swap(&mut messages, &mut self.messages);
            let ghost before = message_views(messages@);
            let ghost pred = id_other_than(id);
            let mut kept: Vec<ChatMessage> = Vec::new();
            let n = messages.len();
            let mut i: usize = 0;
            proof {
                reveal(Seq::filter);
            }
            while i < n
                invariant
                    n == messages@.len(),
                    before == message_views(messages@),
                    pred == id_other_than(id),
                    i <= n,
                    message_views(kept@) == before.take(i as int).filter(pred),
                decreases n - i,
            {
                let keep = messages[i].id != id;
                let ghost prev = kept@;
                if keep {
                    kept.push(messages[i].clone_message());
                }
                proof {
                    reveal(Seq::filter);
                    assert(before.take(i + 1).drop_last() =~= before.take(i as int));
                    assert(before.take(i + 1).last() == before[i as int]);
                    assert(before[i as int] == messages@[i as int]@);
                    assert(pred(before[i as int]) == keep);
                    if keep {
                        assert(message_views(kept@) =~= message_views(prev).push(before[i as int]));
                    } else {
                        assert(message_views(kept@) =~= message_views(prev));
                    }
                }
                i = i + 1;
            }
            proof {
                assert(before.take(n as int) =~= before);
            }
            self.messages = kept;
        }
    }

    /// A streamed piece of the answer (or of the reasoning) grows the
    /// streaming message, or starts one.
    fn append_delta(&mut self, delta: &str, reasoning: bool)
        ensures
            final(self).state() == delta_applied(old(self).state(), delta@, reasoning),
    {
        self.finish_active_status();
        let max = self.budget.max_field_bytes;
        let found = match self.streaming_id {
            Some(id) => self.first_message(&MessageKey::Id(id)),
            None => None,
        };
        match found {
            Some(i) => {
                let mut m = self.messages[i].clone_message();
                if reasoning {
                    append_bounded(&mut m.reasoning_content, delta, max);
                } else {
                    append_bounded(&mut m.content, delta, max);
                }
                self.set_message(i, m);
            },
            None => {
                let mut grown = String::new();
                append_bounded(&mut grown, delta, max);
                self.streaming_id = Some(self.next_id);
                if reasoning {
                    self.push_new(ChatRole::Assistant, MessageVariant::Text, String::new(), grown, true);
                } else {
                    self.push_new(ChatRole::Assistant, MessageVariant::Text, grown, String::new(), true);
                }
            },
        }
    }

    /// The status line is updated in place, or a new one is shown.
    fn upsert_status(&mut self, title: &str, is_done: bool)
        ensures
            final(self).state() == status_upserted(old(self).state(), title@, is_done),
    {
        let found = match self.active_status_id {
            Some(id) => self.first_message(&MessageKey::Id(id)),
            None => None,
        };
        match found {
            Some(i) => {
                let mut m = self.messages[i].clone_message();
                m.variant = MessageVariant::Status { title: title.to_owned(), is_done };
                m.is_streaming = !is_done;
                self.set_message(i, m);
                if is_done {
                    self.active_status_id = None;
                }
            },
            None => {
                if !is_done {
                    self.active_status_id = Some(self.next_id);
                }
                self.push_new(
                    ChatRole::Assistant,
                    MessageVariant::Status { title: title.to_owned(), is_done },
                    String::new(),
                    String::new(),
                    !is_done,
                );
            },
        }
    }

    // ----- assistant answers -----

    /// The messages that show `segs`, numbered from the next free identifier;
    /// the first one carries `reasoning`.
    fn segment_messages(&mut self, segs: Vec<Segment>, reasoning: String) -> (r: Vec<ChatMessage>)
        ensures
            message_views(r@) == segment_messages(
                seg_views(segs@),
                old(self).state().next_id,
                reasoning@,
            ),
            final(self).state() == (TranscriptState {
                next_id: bump_n(old(self).state().next_id, segs@.len()),
                ..old(self).state()
            }),
    {
        let ghost id0 = self.next_id;
        let ghost sv = seg_views(segs@);
        let mut out: Vec<ChatMessage> = Vec::new();
        let n = segs.len();
        let mut i: usize = 0;
        while i < n
            invariant
                n == segs@.len(),
                sv == seg_views(segs@),
                i <= n,
                self.next_id == bump_n(id0, i as nat),
                self.state() == (TranscriptState { next_id: self.next_id, ..old(self).state() }),
                out@.len() == i,
                forall|k: int|
                    0 <= k < i ==> (#[trigger] out@[k])@ == segment_messages(sv, id0, reasoning@)[k],
            decreases n - i,
        {
            let id = self.next_id;
            let r = if i == 0 {
                reasoning.clone()
            } else {
                String::new()
            };
            let m = match &segs[i] {
                Segment::Text(t) => ChatMessage {
                    id,
                    role: ChatRole::Assistant,
                    variant: MessageVariant::Text,
                    content: t.clone(),
                    reasoning_content: r,
                    is_streaming: false,
                },
                Segment::Chart(c) => ChatMessage {
                    id,
                    role: ChatRole::Assistant,
                    variant: MessageVariant::Card(Card::Other("chart-json".to_owned())),
                    content: c.clone(),
                    reasoning_content: r,
                    is_streaming: false,
                },
            };
            proof {
                reveal_strlit("chart-json");
                assert(sv[i as int] == segs@[i as int]@);
            }
            out.push(m);
            self.next_id = if id == u64::MAX {
                0
            } else {
                id + 1
            };
            i = i + 1;
        }
        proof {
            assert(message_views(out@) =~= segment_messages(sv, id0, reasoning@));
        }
        out
    }

    /// The message at `index` is replaced by `replacement`.
    fn splice_messages(&mut self, index: usize, replacement: Vec<ChatMessage>)
        requires
            index < old(self).messages@.len(),
        ensures
            final(self).state() == (TranscriptState {
                messages: old(self).state().messages.take(index as int) + message_views(
                    replacement@,
                ) + old(self).state().messages.skip(index + 1),
                ..old(self).state()
            }),
    {
        let ghost before = self.messages@;
        let mut tail = self.messages.split_off(index);
        tail.remove(0);
        let mut mid = replacement;
        self.messages.append(&mut mid);
        self.messages.append(&mut tail);
        proof {
            assert(self.messages@ =~= before.take(index as int) + replacement@ + before.skip(
                index + 1,
            ));
            assert(message_views(self.messages@) =~= message_views(before).take(index as int)
                + message_views(replacement@) + message_views(before).skip(index + 1));
        }
    }

    fn append_messages(&mut self, extra: Vec<ChatMessage>)
        ensures
            final(self).state() == (TranscriptState {
                messages: old(self).state().messages + message_views(extra@),
                ..old(self).state()
            }),
    {
        let ghost before = self.messages@;
        let mut more = extra;
        self.messages.append(&mut more);
        proof {
            assert(message_views(self.messages@) =~= message_views(before) + message_views(extra@));
        }
    }

    /// The final answer replaces the streaming message, or is added.
    fn finalize_assistant(&mut self, text: &str, blocks: &Vec<ChartBlock>)
        ensures
            final(self).state() == finalized(old(self).state(), text@, block_views(blocks@)),
    {
        self.finish_active_status();
        let found = match self.streaming_id {
            Some(id) => self.first_message(&MessageKey::Id(id)),
            None => None,
        };
        self.streaming_id = None;
        let segs = chart_segments(text, blocks);
        match found {
            Some(i) => {
                let reasoning = self.messages[i].reasoning_content.clone();
                let msgs = self.segment_messages(segs, reasoning);
                self.splice_messages(i, msgs);
            },
            None => {
                let msgs = self.segment_messages(segs, String::new());
                self.append_messages(msgs);
            },
        }
    }

    /// The streaming message is finished where it stands, split by the chart
    /// blocks found in its text.
    fn close_streaming_segment(&mut self, blocks: &Vec<ChartBlock>)
        ensures
            final(self).state() == segment_closed(old(self).state(), block_views(blocks@)),
    {
        if let Some(id) = self.streaming_id {
            let found = self.first_message(&MessageKey::Id(id));
            self.streaming_id = None;
            if let Some(i) = found {
                let content = self.messages[i].content.clone();
                let reasoning = self.messages[i].reasoning_content.clone();
                let segs = chart_segments(content.as_str(), blocks);
                let msgs = self.segment_messages(segs, reasoning);
                self.splice_messages(i, msgs);
            }
        }
    }

    // ----- tool calls -----

    fn card_field_limit(&self) -> (r: usize)
        ensures
            r == card_field_limit(self.state()),
    {
        if self.budget.max_field_bytes < MAX_CARD_FIELD_BYTES {
            self.budget.max_field_bytes
        } else {
            MAX_CARD_FIELD_BYTES
        }
    }

    /// Caches the raw JSON input of a call (see `input_cached`).
    fn cache_tool_input(&mut self, call_id: &str, arguments_json: &str)
        ensures
            final(self).state() == input_cached(old(self).state(), call_id@, arguments_json@),
    {
        self.remove_tool_input(call_id);
        if byte_count(arguments_json) > MAX_CACHED_TOOL_INPUT_BYTES {
            return;
        }
        let ghost st1 = self.state();
        self.tool_inputs.push((call_id.to_owned(), arguments_json.to_owned()));
        let ghost p = st1.tool_inputs.push((call_id@, arguments_json@));
        proof {
            assert(pair_views(self.tool_inputs@) =~= p);
        }
        while self.tool_inputs.len() > MAX_CACHED_TOOL_INPUTS
            invariant
                self.tool_inputs@.len() <= p.len(),
                pair_views(self.tool_inputs@) == p.skip(p.len() - self.tool_inputs@.len()),
                p.len() > MAX_CACHED_TOOL_INPUTS ==> self.tool_inputs@.len() >= MAX_CACHED_TOOL_INPUTS,
                p.len() <= MAX_CACHED_TOOL_INPUTS ==> self.tool_inputs@.len() == p.len(),
                self.state() == (TranscriptState {
                    tool_inputs: pair_views(self.tool_inputs@),
                    ..st1
                }),
            decreases self.tool_inputs@.len(),
        {
            let ghost prev = self.tool_inputs@;
            self.tool_inputs.remove(0);
            proof {
                assert(pair_views(self.tool_inputs@) =~= pair_views(prev).drop_first());
                assert(p.skip(p.len() - prev.len()).drop_first() =~= p.skip(
                    p.len() - self.tool_inputs@.len(),
                ));
            }
        }
        proof {
            if p.len() <= MAX_CACHED_TOOL_INPUTS {
                assert(p.skip(0) =~= p);
            }
        }
    }

    /// Adds the card of a call that started.
    pub fn push_tool_call(
        &mut self,
        call_id: &str,
        tool_name: &str,
        input: &ToolInputDisplay,
        arguments_json: &str,
        blocks: &Vec<ChartBlock>,
    )
        ensures
            final(self).state() == tool_call_pushed(
                old(self).state(),
                call_id@,
                tool_name@,
                input@,
                arguments_json@,
                block_views(blocks@),
            ),
    {
        self.finish_active_status();
        self.close_streaming_segment(blocks);
        self.cache_tool_input(call_id, arguments_json);
        let mut data = ToolCardData {
            call_id: call_id.to_owned(),
            tool_name: tool_name.to_owned(),
            target_id: None,
            target_label: None,
            input_summary: input.summary.clone(),
            input_json: input.json.clone(),
            running: true,
            success: None,
            summary: String::new(),
            data_text: String::new(),
        };
        let limit = self.card_field_limit();
        bound_tool_card_data(&mut data, limit);
        self.push_new(
            ChatRole::Assistant,
            MessageVariant::Card(Card::Tool(data)),
            String::new(),
            String::new(),
            false,
        );
    }

    /// The label of a resource, or its id when it has none.
    fn label_for(&self, id: &str) -> (r: String)
        ensures
            r@ == label_of(self.state().resource_labels, id@),
    {
        let ghost ls = self.state().resource_labels;
        let ghost p = pair_key_is(id@);
        let n = self.resource_labels.len();
        let mut i: usize = n;
        while i > 0
            invariant
                n == self.resource_labels@.len(),
                ls == self.state().resource_labels,
                p == pair_key_is(id@),
                i <= n,
                forall|j: int| i <= j < n ==> !p(#[trigger] ls[j]),
            decreases i,
        {
            let k = i - 1;
            proof {
                assert(ls[k as int] == (
                    self.resource_labels@[k as int].0@,
                    self.resource_labels@[k as int].1@,
                ));
            }
            if crate::text::str_eq(self.resource_labels[k].0.as_str(), id) {
                proof {
                    assert(is_last(ls, p, k as int));
                    lemma_last_index_is(ls, p, k as int);
                }
                return self.resource_labels[k].1.clone();
            }
            i = k;
        }
        proof {
            lemma_last_index_none(ls, p);
        }
        id.to_owned()
    }

    /// Puts an observation on its call's card (see `observation_applied`).
    pub fn apply_observation(&mut self, obs: &ToolObservation)
        ensures
            final(self).state() == observation_applied(old(self).state(), obs@),
    {
        let limit = if is_terminal_exec_tool_name(obs.tool_name.as_str()) {
            MAX_TERMINAL_EXEC_DATA_CHARS
        } else {
            MAX_DATA_CHARS
        };
        let data_text = truncate_chars(obs.data_text.as_str(), limit);
        let target_label = match &obs.resource_id {
            Some(id) => Some(self.label_for(id.as_str())),
            None => None,
        };
        let target_id = clone_opt(&obs.resource_id);
        let key = MessageKey::ToolCard(obs.call_id.clone());
        match self.last_message(&key) {
            Some(i) => {
                let mut m = self.messages[i].clone_message();
                let d0 = match &m.variant {
                    MessageVariant::Card(Card::Tool(d)) => d.clone_data(),
                    _ => {
                        proof {
                            assert(false);
                        }
                        return ;
                    },
                };
                let d = ToolCardData {
                    target_id,
                    target_label,
                    summary: obs.summary.clone(),
                    data_text,
                    success: Some(obs.success),
                    ..d0
                };
                m.variant = MessageVariant::Card(Card::Tool(d));
                self.set_message(i, m);
            },
            None => {
                let d = ToolCardData {
                    call_id: obs.call_id.clone(),
                    tool_name: obs.tool_name.clone(),
                    target_id,
                    target_label,
                    input_summary: String::new(),
                    input_json: String::new(),
                    running: false,
                    success: Some(obs.success),
                    summary: obs.summary.clone(),
                    data_text,
                };
                self.push_new(
                    ChatRole::Assistant,
                    MessageVariant::Card(Card::Tool(d)),
                    String::new(),
                    String::new(),
                    false,
                );
            },
        }
    }

    /// Marks a call as finished on its card and drops its cached input.
    pub fn finish_tool_call(&mut self, call_id: &str, success: bool)
        ensures
            final(self).state() == tool_finished(old(self).state(), call_id@, success),
    {
        self.remove_tool_input(call_id);
        let key = MessageKey::ToolCard(call_id.to_owned());
        if let Some(i) = self.last_message(&key) {
            let mut m = self.messages[i].clone_message();
            let d0 = match &m.variant {
                MessageVariant::Card(Card::Tool(d)) => d.clone_data(),
                _ => {
                    proof {
                        assert(false);
                    }
                    return ;
                },
            };
            let d = ToolCardData { running: false, success: Some(success), ..d0 };
            m.variant = MessageVariant::Card(Card::Tool(d));
            self.set_message(i, m);
        }
    }

    /// The JSON input cached for a call, if any.
    pub fn tool_call_arguments(&self, call_id: &str) -> (r: Option<String>)
        ensures
            match first_index(self.state().tool_inputs, pair_key_is(call_id@)) {
                Some(i) => r is Some && r->0@ == self.state().tool_inputs[i].1,
                None => r is None,
            },
    {
        let ghost ts = self.state().tool_inputs;
        let ghost p = pair_key_is(call_id@);
        let n = self.tool_inputs.len();
        let mut i: usize = 0;
        while i < n
            invariant
                n == self.tool_inputs@.len(),
                ts == self.state().tool_inputs,
                p == pair_key_is(call_id@),
                i <= n,
                forall|j: int| 0 <= j < i ==> !p(#[trigger] ts[j]),
            decreases n - i,
        {
            proof {
                assert(ts[i as int] == (
                    self.tool_inputs@[i as int].0@,
                    self.tool_inputs@[i as int].1@,
                ));
            }
            if crate::text::str_eq(self.tool_inputs[i].0.as_str(), call_id) {
                proof {
                    assert(is_first(ts, p, i as int));
                    lemma_first_index_is(ts, p, i as int);
                }
                return Some(self.tool_inputs[i].1.clone());
            }
            i = i + 1;
        }
        proof {
            lemma_first_index_none(ts, p);
        }
        None
    }

    // ----- confirmations -----

    /// The latest confirmation card of the call waits for the user.
    pub fn has_pending_tool_confirm(&self, call_id: &str) -> (r: bool)
        ensures
            r == has_pending_confirm(self.state(), call_id@),
    {
        proof {
            reveal_strlit("pending");
        }
        let key = MessageKey::ConfirmCard(call_id.to_owned());
        match self.last_message(&key) {
            Some(i) => match &self.messages[i].variant {
                MessageVariant::Card(Card::ToolConfirm(d)) => is_pending(&d.status),
                _ => {
                    proof {
                        assert(false);
                    }
                    false
                },
            },
            None => false,
        }
    }

    fn confirm_input_display(
        &self,
        pending_id: &Option<String>,
        input: &Option<ToolInputDisplay>,
    ) -> (r: ToolInputDisplay)
        ensures
            r@ == confirm_input(self.state(), opt_view(*pending_id), input_opt_view(*input)),
    {
        if let Some(d) = input {
            if d.json.as_str().unicode_len() > 0 {
                return ToolInputDisplay { summary: d.summary.clone(), json: d.json.clone() };
            }
        }
        match pending_id {
            Some(id) => {
                let key = MessageKey::ToolCard(id.clone());
                match self.last_message(&key) {
                    Some(i) => match &self.messages[i].variant {
                        MessageVariant::Card(Card::Tool(t)) => ToolInputDisplay {
                            summary: t.input_summary.clone(),
                            json: t.input_json.clone(),
                        },
                        _ => {
                            proof {
                                assert(false);
                            }
                            ToolInputDisplay { summary: String::new(), json: String::new() }
                        },
                    },
                    None => ToolInputDisplay { summary: String::new(), json: String::new() },
                }
            },
            None => ToolInputDisplay { summary: String::new(), json: String::new() },
        }
    }

    /// Adds a confirmation card for calls waiting for approval.
    fn push_tool_confirmation(
        &mut self,
        question: &str,
        pending_id: &Option<String>,
        tool_name: &Option<String>,
        input: &Option<ToolInputDisplay>,
        items: &Vec<ToolConfirmItemData>,
    )
        ensures
            final(self).state() == confirm_pushed(
                old(self).state(),
                question@,
                opt_view(*pending_id),
                opt_view(*tool_name),
                input_opt_view(*input),
                items@.map_values(|i: ToolConfirmItemData| i@),
            ),
    {
        proof {
            reveal_strlit("unknown");
            reveal_strlit("pending");
        }
        self.finish_active_status();
        let shown = self.confirm_input_display(pending_id, input);
        let mut data = ToolConfirmCardData {
            call_id: match pending_id {
                Some(id) => id.clone(),
                None => String::new(),
            },
            tool_name: match tool_name {
                Some(n) => n.clone(),
                None => "unknown".to_owned(),
            },
            items: clone_items(items),
            input_summary: shown.summary,
            input_json: shown.json,
            question: question.to_owned(),
            status: "pending".to_owned(),
        };
        let limit = self.card_field_limit();
        bound_tool_confirm_data(&mut data, limit);
        self.push_new(
            ChatRole::Assistant,
            MessageVariant::Card(Card::ToolConfirm(data)),
            String::new(),
            String::new(),
            false,
        );
        self.enforce_budget();
    }

    /// Records the user's decision on the latest confirmation card of a call.
    pub fn resolve_tool_confirm(&mut self, call_id: &str, approved: bool)
        ensures
            final(self).state() == confirm_resolved(old(self).state(), call_id@, approved),
    {
        proof {
            reveal_strlit("approved");
            reveal_strlit("rejected");
        }
        let key = MessageKey::ConfirmCard(call_id.to_owned());
        if let Some(i) = self.last_message(&key) {
            let mut m = self.messages[i].clone_message();
            let d0 = match &m.variant {
                MessageVariant::Card(Card::ToolConfirm(d)) => d.clone_data(),
                _ => {
                    proof {
                        assert(false);
                    }
                    return ;
                },
            };
            let status = if approved {
                "approved".to_owned()
            } else {
                "rejected".to_owned()
            };
            let d = ToolConfirmCardData { status, ..d0 };
            m.variant = MessageVariant::Card(Card::ToolConfirm(d));
            self.set_message(i, m);
            self.enforce_budget();
        }
    }

    /// Shows the safety confirmation of a public MCP call, unless one is
    /// already pending for the request.
    pub fn push_public_mcp_approval(
        &mut self,
        request_id: &str,
        tool_name: &str,
        input: &ToolInputDisplay,
        question: &str,
        stream_blocks: &Vec<ChartBlock>,
    )
        ensures
            final(self).state() == public_mcp_pushed(
                old(self).state(),
                request_id@,
                tool_name@,
                input@,
                question@,
                block_views(stream_blocks@),
            ),
    {
        proof {
            reveal_strlit("pending");
        }
        if self.has_pending_tool_confirm(request_id) {
            return ;
        }
        self.finish_active_status();
        self.close_streaming_segment(stream_blocks);
        let mut data = ToolConfirmCardData {
            call_id: request_id.to_owned(),
            tool_name: tool_name.to_owned(),
            items: Vec::new(),
            input_summary: input.summary.clone(),
            input_json: input.json.clone(),
            question: question.to_owned(),
            status: "pending".to_owned(),
        };
        proof {
            assert(data@.items =~= Seq::<ConfirmItemView>::empty());
        }
        let limit = self.card_field_limit();
        bound_tool_confirm_data(&mut data, limit);
        self.push_new(
            ChatRole::Assistant,
            MessageVariant::Card(Card::ToolConfirm(data)),
            String::new(),
            String::new(),
            false,
        );
        self.enforce_budget();
    }

    // ----- ACP permission requests -----

    /// The permission card of the request waits for the user.
    pub fn has_pending_acp_permission(&self, request_id: &str) -> (r: bool)
        ensures
            r == has_pending_acp(self.state(), request_id@),
    {
        proof {
            reveal_strlit("pending");
        }
        let key = MessageKey::AcpCard(request_id.to_owned());
        match self.first_message(&key) {
            Some(i) => match &self.messages[i].variant {
                MessageVariant::Card(Card::AcpPermission(d)) => is_pending(&d.status),
                _ => {
                    proof {
                        assert(false);
                    }
                    false
                },
            },
            None => false,
        }
    }

    /// Adds the permission card of an ACP request, unless one is already
    /// pending; `safety_notice` replaces the summary when the request needs a
    /// safety confirmation.
    pub fn push_acp_permission(
        &mut self,
        request: &AcpPermissionRequest,
        requires_safety_confirmation: bool,
        safety_notice: &str,
        stream_blocks: &Vec<ChartBlock>,
    )
        ensures
            final(self).state() == acp_pushed(
                old(self).state(),
                acp_request_view(*request),
                requires_safety_confirmation,
                safety_notice@,
                block_views(stream_blocks@),
            ),
    {
        proof {
            reveal_strlit("pending");
        }
        if self.has_pending_acp_permission(request.request_id.as_str()) {
            return ;
        }
        self.finish_active_status();
        self.close_streaming_segment(stream_blocks);
        let summary = if requires_safety_confirmation {
            safety_notice.to_owned()
        } else {
            request.summary.clone()
        };
        let mut data = AcpPermissionCardData {
            request_id: request.request_id.clone(),
            session_id: request.session_id.clone(),
            tool_call_id: clone_opt(&request.tool_call_id),
            tool_name: request.tool_name.clone(),
            summary,
            details_json: request.details_json.clone(),
            options: clone_options(&request.options),
            status: "pending".to_owned(),
            selected_option_name: String::new(),
        };
        let limit = self.card_field_limit();
        bound_acp_permission_data(&mut data, limit);
        self.push_new(
            ChatRole::Assistant,
            MessageVariant::Card(Card::AcpPermission(data)),
            String::new(),
            String::new(),
            false,
        );
        self.enforce_budget();
    }

    fn update_acp_card(&mut self, request_id: &str, status: String, selected: String)
        ensures
            final(self).state() == acp_updated(
                old(self).state(),
                request_id@,
                status@,
                selected@,
            ),
    {
        let key = MessageKey::AcpCard(request_id.to_owned());
        if let Some(i) = self.first_message(&key) {
            let mut m = self.messages[i].clone_message();
            let d0 = match &m.variant {
                MessageVariant::Card(Card::AcpPermission(d)) => d.clone_data(),
                _ => {
                    proof {
                        assert(false);
                    }
                    return ;
                },
            };
            let d = AcpPermissionCardData { status, selected_option_name: selected, ..d0 };
            m.variant = MessageVariant::Card(Card::AcpPermission(d));
            self.set_message(i, m);
            self.enforce_budget();
        }
    }

    /// Records the option the user chose on the request's card.
    pub fn resolve_acp_permission(&mut self, request_id: &str, option: &AcpPermissionOptionData)
        ensures
            final(self).state() == acp_updated(
                old(self).state(),
                request_id@,
                option_status(option@),
                option.name@,
            ),
    {
        proof {
            reveal_strlit("reject");
            reveal_strlit("rejected");
            reveal_strlit("approved");
        }
        let status = if starts_with_str(option.kind.as_str(), "reject") {
            "rejected".to_owned()
        } else {
            "approved".to_owned()
        };
        self.update_acp_card(request_id, status, option.name.clone());
    }

    /// Marks the request's card as cancelled.
    pub fn cancel_acp_permission(&mut self, request_id: &str)
        ensures
            final(self).state() == acp_updated(
                old(self).state(),
                request_id@,
                "cancelled"@,
                Seq::empty(),
            ),
    {
        proof {
            reveal_strlit("cancelled");
        }
        self.update_acp_card(request_id, "cancelled".to_owned(), String::new());
    }

    // ----- sub-agents -----

    /// The sub-agent panel takes the (bounded) entry (see `panel_upserted`).
    fn upsert_active_subagent(&mut self, data: SubAgentCardData)
        ensures
            final(self).state() == panel_upserted(old(self).state(), data@),
    {
        let mut d = data;
        let limit = self.card_field_limit();
        bound_subagent_data(&mut d, limit);
        let ghost dv = d@;
        let ghost st0 = self.state();
        let ghost before = self.active_subagents@;
        match panel_index(&self.active_subagents, d.subagent_id.as_str()) {
            Some(i) => {
                self.active_subagents.remove(i);
                self.active_subagents.insert(i, d);
                proof {
                    assert(self.active_subagents@ =~= before.update(i as int, self.active_subagents@[i as int]));
                    assert(subagent_views(self.active_subagents@) =~= subagent_views(before).update(i as int, dv));
                }
            },
            None => {
                self.active_subagents.push(d);
                proof {
                    assert(subagent_views(self.active_subagents@) =~= subagent_views(before).push(dv));
                }
            },
        }
        let ghost target = trim_subagents(subagent_views(self.active_subagents@));
        while self.active_subagents.len() > MAX_ACTIVE_SUBAGENTS
            invariant
                trim_subagents(subagent_views(self.active_subagents@)) == target,
                self.state() == (TranscriptState {
                    subagents: subagent_views(self.active_subagents@),
                    ..st0
                }),
            decreases self.active_subagents@.len(),
        {
            let ghost prev = self.active_subagents@;
            let index = match first_finished(&self.active_subagents) {
                Some(i) => i,
                None => 0,
            };
            self.active_subagents.remove(index);
            proof {
                assert(subagent_views(self.active_subagents@) =~= subagent_views(prev).remove(
                    index as int,
                ));
            }
        }
    }

    /// The sub-agent as last shown: its latest card, else its panel entry.
    fn find_subagent(&self, id: &str) -> (r: Option<SubAgentCardData>)
        ensures
            match r {
                Some(d) => find_subagent(self.state(), id@) == Some(d@),
                None => find_subagent(self.state(), id@) is None,
            },
    {
        let key = MessageKey::SubAgentCard(id.to_owned());
        match self.last_message(&key) {
            Some(i) => match &self.messages[i].variant {
                MessageVariant::Card(Card::SubAgent(d)) => Some(d.clone_data()),
                _ => {
                    proof {
                        assert(false);
                    }
                    None
                },
            },
            None => match panel_index(&self.active_subagents, id) {
                Some(j) => Some(self.active_subagents[j].clone_data()),
                None => None,
            },
        }
    }

    fn replace_subagent_card(&mut self, id: &str, data: SubAgentCardData)
        ensures
            final(self).state() == subagent_card_replaced(old(self).state(), id@, data@),
    {
        let key = MessageKey::SubAgentCard(id.to_owned());
        if let Some(i) = self.last_message(&key) {
            let mut m = self.messages[i].clone_message();
            m.variant = MessageVariant::Card(Card::SubAgent(data));
            self.set_message(i, m);
        }
    }

    pub fn push_subagent(&mut self, id: &str, name: &str, task: &str, blocks: &Vec<ChartBlock>)
        ensures
            final(self).state() == subagent_pushed(
                old(self).state(),
                id@,
                name@,
                task@,
                block_views(blocks@),
            ),
    {
        self.finish_active_status();
        self.close_streaming_segment(blocks);
        let mut data = SubAgentCardData {
            subagent_id: id.to_owned(),
            name: name.to_owned(),
            task: task.to_owned(),
            running: true,
            success: None,
            summary: String::new(),
        };
        let limit = self.card_field_limit();
        bound_subagent_data(&mut data, limit);
        self.upsert_active_subagent(data.clone_data());
        self.push_new(
            ChatRole::Assistant,
            MessageVariant::Card(Card::SubAgent(data)),
            String::new(),
            String::new(),
            false,
        );
    }

    pub fn update_subagent(&mut self, id: &str, summary: &str)
        ensures
            final(self).state() == subagent_updated(old(self).state(), id@, summary@),
    {
        if let Some(d0) = self.find_subagent(id) {
            let d = SubAgentCardData { summary: summary.to_owned(), ..d0 };
            self.upsert_active_subagent(d.clone_data());
            self.replace_subagent_card(id, d);
        }
    }

    pub fn finish_subagent(&mut self, id: &str, success: bool, summary: &str)
        ensures
            final(self).state() == subagent_finished(old(self).state(), id@, success, summary@),
    {
        if let Some(d0) = self.find_subagent(id) {
            let new_summary = if summary.unicode_len() == 0 {
                d0.summary.clone()
            } else {
                summary.to_owned()
            };
            let d = SubAgentCardData {
                running: false,
                success: Some(success),
                summary: new_summary,
                ..d0
            };
            self.upsert_active_subagent(d.clone_data());
            self.replace_subagent_card(id, d);
        }
    }

    // ----- events -----

    /// Remembers a terminal event key; `false` when it was seen before.
    pub fn record_terminal_event(&mut self, key: TerminalEventKey) -> (r: bool)
        ensures
            r == recorded(old(self).state().terminal_events, key@).1,
            final(self).state() == (TranscriptState {
                terminal_events: recorded(old(self).state().terminal_events, key@).0,
                ..old(self).state()
            }),
    {
        let ghost ks = self.state().terminal_events;
        let n = self.terminal_events.len();
        let mut i: usize = 0;
        while i < n
            invariant
                n == self.terminal_events@.len(),
                ks == self.state().terminal_events,
                i <= n,
                forall|j: int| 0 <= j < i ==> ks[j] != key@,
            decreases n - i,
        {
            proof {
                assert(ks[i as int] == self.terminal_events@[i as int]@);
            }
            if terminal_key_eq(&self.terminal_events[i], &key) {
                proof {
                    assert(ks.contains(key@));
                }
                return false;
            }
            i = i + 1;
        }
        let ghost st1 = self.state();
        let ghost p = ks.push(key@);
        self.terminal_events.push(key);
        proof {
            assert(!ks.contains(key@));
            assert(key_views(self.terminal_events@) =~= p);
        }
        while self.terminal_events.len() > MAX_TERMINAL_EVENTS
            invariant
                self.terminal_events@.len() <= p.len(),
                key_views(self.terminal_events@) == p.skip(p.len() - self.terminal_events@.len()),
                p.len() > MAX_TERMINAL_EVENTS ==> self.terminal_events@.len() >= MAX_TERMINAL_EVENTS,
                p.len() <= MAX_TERMINAL_EVENTS ==> self.terminal_events@.len() == p.len(),
                self.state() == (TranscriptState {
                    terminal_events: key_views(self.terminal_events@),
                    ..st1
                }),
            decreases self.terminal_events@.len(),
        {
            let ghost prev = self.terminal_events@;
            self.terminal_events.remove(0);
            proof {
                assert(key_views(self.terminal_events@) =~= key_views(prev).drop_first());
                assert(p.skip(p.len() - prev.len()).drop_first() =~= p.skip(
                    p.len() - self.terminal_events@.len(),
                ));
            }
        }
        proof {
            if p.len() <= MAX_TERMINAL_EVENTS {
                assert(p.skip(0) =~= p);
            }
        }
        true
    }

    /// What one event does before budget enforcement (see `handled`).
    #[verifier::rlimit(40)]
    fn handle_event(&mut self, event: &RuntimeEvent, blocks: &Vec<ChartBlock>)
        ensures
            final(self).state() == handled(old(self).state(), *event, block_views(blocks@)),
    {
        match event {
            RuntimeEvent::TurnStarted { .. } => {
                self.streaming_id = None;
                self.active_status_id = None;
            },
            RuntimeEvent::AssistantMessageDelta { delta, .. } => {
                self.append_delta(delta.as_str(), false);
            },
            RuntimeEvent::ReasoningDelta { delta, .. } => {
                self.append_delta(delta.as_str(), true);
            },
            RuntimeEvent::AssistantMessage { text, chart_blocks, .. } => {
                self.finalize_assistant(text.as_str(), chart_blocks);
            },
            RuntimeEvent::UserMessage { text, .. } => {
                self.push_new(
                    ChatRole::User,
                    MessageVariant::Text,
                    text.clone(),
                    String::new(),
                    false,
                );
                self.enforce_budget();
            },
            RuntimeEvent::Status { title, is_done, .. } => {
                self.upsert_status(title.as_str(), *is_done);
            },
            RuntimeEvent::PlanUpdated { plan, .. } => {
                self.latest_plan = Some(plan_to_card(plan));
            },
            RuntimeEvent::SubAgentStarted { subagent_id, name, task, .. } => {
                self.push_subagent(subagent_id.as_str(), name.as_str(), task.as_str(), blocks);
            },
            RuntimeEvent::SubAgentUpdated { subagent_id, summary, .. } => {
                self.update_subagent(subagent_id.as_str(), summary.as_str());
            },
            RuntimeEvent::SubAgentFinished { subagent_id, success, summary, .. } => {
                self.finish_subagent(subagent_id.as_str(), *success, summary.as_str());
            },
            RuntimeEvent::ToolCallStarted { call_id, tool_name, input, arguments_json, .. } => {
                self.push_tool_call(
                    call_id.as_str(),
                    tool_name.as_str(),
                    input,
                    arguments_json.as_str(),
                    blocks,
                );
            },
            RuntimeEvent::ObservationAdded { observation, .. } => {
                self.apply_observation(observation);
            },
            RuntimeEvent::ToolCallFinished { call_id, success, .. } => {
                self.finish_tool_call(call_id.as_str(), *success);
            },
            RuntimeEvent::NeedUserInput {
                question,
                pending_tool_call_id,
                tool_name,
                input,
                pending_tool_calls,
                ..
            } => {
                self.push_tool_confirmation(
                    question.as_str(),
                    pending_tool_call_id,
                    tool_name,
                    input,
                    pending_tool_calls,
                );
            },
            RuntimeEvent::ToolApprovalResolved { call_id, approved, .. } => {
                self.resolve_tool_confirm(call_id.as_str(), *approved);
            },
            RuntimeEvent::TurnFailed { notice, .. } => {
                self.finish_active_status();
                self.streaming_id = None;
                self.push_new(
                    ChatRole::System,
                    MessageVariant::Text,
                    notice.clone(),
                    String::new(),
                    false,
                );
            },
            RuntimeEvent::TurnCancelled { notice, .. } => {
                self.finish_active_status();
                self.close_streaming_segment(blocks);
                self.push_new(
                    ChatRole::System,
                    MessageVariant::Text,
                    notice.clone(),
                    String::new(),
                    false,
                );
            },
            RuntimeEvent::TurnCompleted { .. } => {
                self.finish_active_status();
                self.close_streaming_segment(blocks);
            },
        }
    }

    /// Applies a runtime event and enforces the budget; a terminal event seen
    /// before is ignored and `false` returned.  `stream_blocks` are the chart
    /// blocks of the streaming message's text, used when that message is
    /// finished by this event.
    pub fn apply(&mut self, event: &RuntimeEvent, stream_blocks: &Vec<ChartBlock>) -> (r: bool)
        ensures
            final(self).state() == applied(
                old(self).state(),
                *event,
                block_views(stream_blocks@),
            ).0,
            r == applied(old(self).state(), *event, block_views(stream_blocks@)).1,
    {
        match terminal_event_key(event) {
            Some(key) => {
                if !self.record_terminal_event(key) {
                    return false;
                }
            },
            None => {},
        }
        self.handle_event(event, stream_blocks);
        self.enforce_budget();
        true
    }

    /// Adds a system notice.
    pub fn push_system(&mut self, text: &str)
        ensures
            final(self).state() == enforced(system_pushed(old(self).state(), text@)),
    {
        self.push_new(ChatRole::System, MessageVariant::Text, text.to_owned(), String::new(), false);
        self.enforce_budget();
    }

    /// Adds the user's message; `images_text` is shown instead of `text`
    /// when images are attached.
    pub fn push_user(&mut self, text: &str, image_count: usize, images_text: &str)
        ensures
            final(self).state() == enforced(
                user_pushed(
                    old(self).state(),
                    if image_count > 0 {
                        images_text@
                    } else {
                        text@
                    },
                ),
            ),
    {
        let content = if image_count > 0 {
            images_text.to_owned()
        } else {
            text.to_owned()
        };
        self.push_new(ChatRole::User, MessageVariant::Text, content, String::new(), false);
        self.enforce_budget();
    }

    /// Empties the conversation (switching or starting a session); the
    /// resource labels and the budget stay.
    pub fn clear(&mut self)
        ensures
            final(self).state() == cleared(old(self).state()),
    {
        self.messages = Vec::new();
        self.streaming_id = None;
        self.active_status_id = None;
        self.latest_plan = None;
        self.active_subagents = Vec::new();
        self.tool_inputs = Vec::new();
        self.terminal_events = Vec::new();
        proof {
            assert(self.state().messages =~= Seq::<MessageView>::empty());
            assert(self.state().subagents =~= Seq::<SubAgentView>::empty());
            assert(self.state().tool_inputs =~= Seq::<(Seq<char>, Seq<char>)>::empty());
            assert(self.state().terminal_events =~= Seq::<TerminalKeyView>::empty());
        }
    }

    /// Replaces the resource labels (resource id, label) that observation
    /// cards show for their target.
    pub fn set_resource_labels(&mut self, labels: Vec<(String, String)>)
        ensures
            final(self).state() == (TranscriptState {
                resource_labels: pair_views(labels@),
                ..old(self).state()
            }),
    {
        self.resource_labels = labels;
    }

    /// Remembers the id and label of every resource of the pool, so that
    /// cards name their targets by label.
    pub fn set_resource_context(&mut self, resources: &crate::resources::ResourceContext)
        ensures
            final(self).state() == (TranscriptState {
                resource_labels: resource_id_labels(resources@.resources),
                ..old(self).state()
            }),
    {
        let ghost rv = resources@.resources;
        let mut labels: Vec<(String, String)> = Vec::new();
        proof {
            assert(resource_id_labels(rv.take(0)) =~= pair_views(labels@));
        }
        let n = resources.resources.len();
        let mut i: usize = 0;
        while i < n
            invariant
                rv == resources@.resources,
                n == rv.len(),
                i <= n,
                pair_views(labels@) == resource_id_labels(rv.take(i as int)),
            decreases n - i,
        {
            let r = &resources.resources[i];
            let ghost before = labels@;
            labels.push((r.id.clone(), r.label.clone()));
            proof {
                assert(rv[i as int] == r@);
                assert(rv.take(i + 1) =~= rv.take(i as int).push(rv[i as int]));
                assert(pair_views(labels@) =~= pair_views(before).push((r.id@, r.label@)));
                assert(resource_id_labels(rv.take(i + 1)) =~= resource_id_labels(rv.take(i as int)).push(
                    (rv[i as int].id, rv[i as int].label),
                ));
            }
            i = i + 1;
        }
        proof {
            assert(rv.take(n as int) =~= rv);
        }
        self.set_resource_labels(labels);
    }

    /// The plan shown above the input box.
    pub fn latest_plan(&self) -> (r: Option<&PlanCardData>)
        ensures
            match r {
                Some(p) => self.state().plan == Some(p@),
                None => self.state().plan is None,
            },
    {
        match &self.latest_plan {
            Some(p) => Some(p),
            None => None,
        }
    }

    /// The sub-agents shown in the sub-agent panel.
    pub fn active_subagents(&self) -> (r: &Vec<SubAgentCardData>)
        ensures
            subagent_views(r@) == self.state().subagents,
    {
        &self.active_subagents
    }

    fn apply_history_item(&mut self, item: &HistoryItem)
        ensures
            final(self).state() == history_item(old(self).state(), *item),
    {
        let no_blocks: Vec<ChartBlock> = Vec::new();
        proof {
            assert(block_views(no_blocks@) =~= Seq::<BlockView>::empty());
        }
        match item {
            HistoryItem::User { text, image_count, images_text } => {
                self.push_user(text.as_str(), *image_count, images_text.as_str());
            },
            HistoryItem::Assistant(text) => {
                self.push_new(
                    ChatRole::Assistant,
                    MessageVariant::Text,
                    text.clone(),
                    String::new(),
                    false,
                );
            },
            HistoryItem::AssistantWithReasoning { text, reasoning } => {
                self.push_new(
                    ChatRole::Assistant,
                    MessageVariant::Text,
                    text.clone(),
                    reasoning.clone(),
                    false,
                );
            },
            HistoryItem::System(text) => {
                self.push_system(text.as_str());
            },
            HistoryItem::ContextSummary(text) => {
                self.push_system(text.as_str());
            },
            HistoryItem::ToolCall { call_id, tool_name, input, arguments_json, arguments } => {
                let delegate = if is_delegate_task_tool(tool_name.as_str()) {
                    delegate_task_args(arguments)
                } else {
                    None
                };
                match delegate {
                    Some((name, task)) => {
                        self.push_subagent(
                            call_id.as_str(),
                            name.as_str(),
                            task.as_str(),
                            &no_blocks,
                        );
                    },
                    None => {
                        self.push_tool_call(
                            call_id.as_str(),
                            tool_name.as_str(),
                            input,
                            arguments_json.as_str(),
                            &no_blocks,
                        );
                    },
                }
            },
            HistoryItem::Observation(obs) => {
                let delegate = if is_delegate_task_tool(obs.tool_name.as_str()) {
                    self.find_subagent(obs.call_id.as_str())
                } else {
                    None
                };
                match delegate {
                    Some(_) => {
                        let summary = if crate::text::is_blank_str(obs.data_text.as_str()) {
                            obs.summary.clone()
                        } else {
                            obs.data_text.clone()
                        };
                        self.finish_subagent(obs.call_id.as_str(), obs.success, summary.as_str());
                    },
                    None => {
                        self.apply_observation(obs);
                        self.finish_tool_call(obs.call_id.as_str(), obs.success);
                    },
                }
            },
        }
    }

    /// Rebuilds the transcript from a session's history (switching to or
    /// restoring a session): entries are replayed with the same rules as live
    /// events, the budget enforced after each, and the plan shown.
    pub fn load_history(&mut self, items: &Vec<HistoryItem>, plan: Option<&Plan>)
        ensures
            final(self).state() == loaded(
                old(self).state(),
                items@,
                match plan {
                    Some(p) => Some(*p),
                    None => None,
                },
            ),
    {
        self.clear();
        let ghost st0 = self.state();
        let n = items.len();
        let mut i: usize = 0;
        while i < n
            invariant
                n == items@.len(),
                i <= n,
                self.state() == history_applied(st0, items@.take(i as int)),
            decreases n - i,
        {
            proof {
                assert(items@.take(i + 1).drop_last() =~= items@.take(i as int));
                assert(items@.take(i + 1).last() == items@[i as int]);
            }
            self.apply_history_item(&items[i]);
            self.enforce_budget();
            i = i + 1;
        }
        proof {
            assert(items@.take(n as int) =~= items@);
        }
        if let Some(p) = plan {
            self.latest_plan = Some(plan_to_card(p));
        }
        self.enforce_budget();
    }

    // ----- lookups -----

    /// The latest card of a tool call.
    pub fn find_tool_card(&self, call_id: &str) -> (r: Option<ToolCardData>)
        ensures
            match last_index(self.state().messages, key_pred(MessageKeyView::ToolCard(call_id@))) {
                Some(i) => r is Some && r->0@ == tool_of(self.state().messages[i]),
                None => r is None,
            },
    {
        let key = MessageKey::ToolCard(call_id.to_owned());
        match self.last_message(&key) {
            Some(i) => match &self.messages[i].variant {
                MessageVariant::Card(Card::Tool(d)) => Some(d.clone_data()),
                _ => {
                    proof {
                        assert(false);
                    }
                    None
                },
            },
            None => None,
        }
    }

    /// The (first) permission card of an ACP request.
    pub fn find_acp_permission_card(&self, request_id: &str) -> (r: Option<AcpPermissionCardData>)
        ensures
            match first_index(self.state().messages, key_pred(MessageKeyView::AcpCard(request_id@))) {
                Some(i) => r is Some && r->0@ == acp_of(self.state().messages[i]),
                None => r is None,
            },
    {
        let key = MessageKey::AcpCard(request_id.to_owned());
        match self.first_message(&key) {
            Some(i) => match &self.messages[i].variant {
                MessageVariant::Card(Card::AcpPermission(d)) => Some(d.clone_data()),
                _ => {
                    proof {
                        assert(false);
                    }
                    None
                },
            },
            None => None,
        }
    }

    /// The latest card of a sub-agent.
    pub fn find_subagent_card(&self, subagent_id: &str) -> (r: Option<SubAgentCardData>)
        ensures
            match last_index(
                self.state().messages,
                key_pred(MessageKeyView::SubAgentCard(subagent_id@)),
            ) {
                Some(i) => r is Some && r->0@ == subagent_of(self.state().messages[i]),
                None => r is None,
            },
    {
        let key = MessageKey::SubAgentCard(subagent_id.to_owned());
        match self.last_message(&key) {
            Some(i) => match &self.messages[i].variant {
                MessageVariant::Card(Card::SubAgent(d)) => Some(d.clone_data()),
                _ => {
                    proof {
                        assert(false);
                    }
                    None
                },
            },
            None => None,
        }
    }

    /// How many terminal events are remembered for de-duplication.
    pub fn terminal_event_count(&self) -> (r: usize)
        ensures
            r == self.state().terminal_events.len(),
    {
        self.terminal_events.len()
    }

    // ----- budget -----

    fn truncate_all_fields(&mut self)
        ensures
            final(self).state() == (TranscriptState {
                messages: truncate_all(
                    old(self).state().messages,
                    old(self).state().budget.max_field_bytes as int,
                ),
                ..old(self).state()
            }),
    {
        let max = self.budget.max_field_bytes;
        let mut messages: Vec<ChatMessage> = Vec::new();
        std::mem::swap(&mut messages, &mut self.messages);
        let ghost before = message_views(messages@);
        let mut out: Vec<ChatMessage> = Vec::new();
        let n = messages.len();
        let mut i: usize = 0;
        while i < n
            invariant
                n == messages@.len(),
                before == message_views(messages@),
                i <= n,
                message_views(out@) == truncate_all(before.take(i as int), max as int),
            decreases n - i,
        {
            let mut m = messages[i].clone_message();
            truncate_message_fields(&mut m, max);
            let ghost prev = out@;
            out.push(m);
            proof {
                assert(message_views(out@) =~= message_views(prev).push(m@));
                assert(truncate_all(before.take(i + 1), max as int) =~= truncate_all(
                    before.take(i as int),
                    max as int,
                ).push(crate::cards::message_fields_truncated(before[i as int], max as int)));
            }
            i = i + 1;
        }
        proof {
            assert(before.take(n as int) =~= before);
        }
        self.messages = out;
    }

    /// Removes one message; the streaming and status markers and the cached
    /// input of a removed tool card go with it.
    fn remove_message(&mut self, index: usize)
        requires
            index < old(self).messages@.len(),
        ensures
            final(self).state() == with_eviction(
                old(self).state(),
                remove_at(eviction_of(old(self).state()), index as int),
            ),
    {
        let removed = self.messages.remove(index);
        proof {
            assert(message_views(self.messages@) =~= message_views(old(self).messages@).remove(
                index as int,
            ));
        }
        if self.streaming_id == Some(removed.id) {
            self.streaming_id = None;
        }
        if self.active_status_id == Some(removed.id) {
            self.active_status_id = None;
        }
        match &removed.variant {
            MessageVariant::Card(Card::Tool(d)) => {
                self.remove_tool_input(d.call_id.as_str());
            },
            _ => {},
        }
    }

    fn remove_tool_input(&mut self, call_id: &str)
        ensures
            final(self).state() == (TranscriptState {
                tool_inputs: inputs_without(old(self).state().tool_inputs, call_id@),
                ..old(self).state()
            }),
    {
        let mut inputs: Vec<(String, String)> = Vec::new();
        std::mem::swap(&mut inputs, &mut self.tool_inputs);
        let ghost before = pair_views(inputs@);
        let ghost pred = input_call_other_than(call_id@);
        let mut kept: Vec<(String, String)> = Vec::new();
        let n = inputs.len();
        let mut i: usize = 0;
        proof {
            reveal(Seq::filter);
        }
        while i < n
            invariant
                n == inputs@.len(),
                before == pair_views(inputs@),
                pred == input_call_other_than(call_id@),
                i <= n,
                pair_views(kept@) == before.take(i as int).filter(pred),
            decreases n - i,
        {
            let same = crate::text::str_eq(inputs[i].0.as_str(), call_id);
            let ghost prev = kept@;
            if !same {
                kept.push((inputs[i].0.clone(), inputs[i].1.clone()));
            }
            proof {
                reveal(Seq::filter);
                assert(before.take(i + 1).drop_last() =~= before.take(i as int));
                assert(before.take(i + 1).last() == before[i as int]);
                assert(pred(before[i as int]) == !same);
                if !same {
                    assert(pair_views(kept@) =~= pair_views(prev).push(before[i as int]));
                } else {
                    assert(pair_views(kept@) =~= pair_views(prev));
                }
            }
            i = i + 1;
        }
        proof {
            assert(before.take(n as int) =~= before);
        }
        self.tool_inputs = kept;
    }

    fn is_over_budget(&self) -> (r: bool)
        ensures
            r == over_budget(self.state().messages, self.state().budget),
    {
        self.messages.len() > self.budget.max_messages || transcript_text_bytes(&self.messages)
            > self.budget.max_text_bytes
    }

    /// Keeps the transcript within its budget: every field is bounded first,
    /// then the first unprotected message (the oldest one when all are
    /// protected) is evicted until the message count and the text fit.
    #[verifier::rlimit(40)]
    fn enforce_budget(&mut self)
        ensures
            final(self).state() == enforced(old(self).state()),
            !over_budget(final(self).state().messages, final(self).state().budget),
    {
        self.truncate_all_fields();
        let ghost st1 = self.state();
        let ghost target = evict(eviction_of(st1), st1.budget);
        while self.is_over_budget()
            invariant
                evict(eviction_of(self.state()), self.state().budget) == target,
                self.state() == with_eviction(st1, eviction_of(self.state())),
                st1.budget == old(self).state().budget,
            decreases self.messages@.len(),
        {
            proof {
                if self.messages@.len() == 0 {
                    lemma_messages_bytes_nonneg(self.state().messages);
                    assert(self.state().messages =~= Seq::<MessageView>::empty());
                }
            }
            let ghost prev = eviction_of(self.state());
            let index = self.victim_index();
            self.remove_message(index);
            proof {
                assert(eviction_of(self.state()) == evict_step(prev));
            }
        }
    }

    /// The index of the message that budget enforcement evicts next.
    fn victim_index(&self) -> (r: usize)
        requires
            self.messages@.len() > 0,
        ensures
            r == victim(self.state().messages, self.state().streaming_id, self.state().active_status_id),
            r < self.messages@.len(),
    {
        let ghost ms = self.state().messages;
        let ghost s = self.state().streaming_id;
        let ghost a = self.state().active_status_id;
        let n = self.messages.len();
        let mut i: usize = 0;
        while i < n
            invariant
                n == self.messages@.len(),
                ms == self.state().messages,
                s == self.streaming_id,
                a == self.active_status_id,
                i <= n,
                forall|j: int| 0 <= j < i ==> is_protected(#[trigger] ms[j], s, a, None),
            decreases n - i,
        {
            if !message_is_protected(
                &self.messages[i],
                self.streaming_id,
                self.active_status_id,
                None,
            ) {
                proof {
                    assert(ms[i as int] == self.messages@[i as int]@);
                    assert(!is_protected(ms[i as int], s, a, None));
                    let c = victim(ms, s, a);
                    assert(0 <= c < ms.len() && !is_protected(ms[c], s, a, None) && forall|j: int|
                        0 <= j < c ==> is_protected(#[trigger] ms[j], s, a, None));
                    if c < i {
                        assert(is_protected(ms[c], s, a, None));
                    }
                    if c > i {
                        assert(is_protected(ms[i as int], s, a, None));
                    }
                }
                return i;
            }
            proof {
                assert(ms[i as int] == self.messages@[i as int]@);
            }
            i = i + 1;
        }
        0
    }

}

impl ChatMessage {
    pub fn clone_message(&self) -> (r: Self)
        ensures
            r@ == self@,
    {
        ChatMessage {
            id: self.id,
            role: self.role,
            variant: self.variant.clone_variant(),
            content: self.content.clone(),
            reasoning_content: self.reasoning_content.clone(),
            is_streaming: self.is_streaming,
        }
    }
}

impl MessageVariant {
    pub fn clone_variant(&self) -> (r: Self)
        ensures
            r@ == self@,
    {
        match self {
            MessageVariant::Text => MessageVariant::Text,
            MessageVariant::Status { title, is_done } => MessageVariant::Status {
                title: title.clone(),
                is_done: *is_done,
            },
            MessageVariant::Card(c) => MessageVariant::Card(c.clone_card()),
        }
    }
}

impl Card {
    pub fn clone_card(&self) -> (r: Self)
        ensures
            r@ == self@,
    {
        match self {
            Card::Tool(d) => Card::Tool(d.clone_data()),
            Card::ToolConfirm(d) => Card::ToolConfirm(d.clone_data()),
            Card::AcpPermission(d) => Card::AcpPermission(d.clone_data()),
            Card::SubAgent(d) => Card::SubAgent(d.clone_data()),
            Card::Other(k) => Card::Other(k.clone()),
        }
    }
}

} // verus!
