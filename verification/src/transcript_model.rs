//! The mathematical model of an agent transcript and what each update does
//! to it.  `AgentTranscript` (in `transcript`) is proved to follow it.
use vstd::prelude::*;

use crate::budget::{appended_bounded, byte_len};
use crate::cards::{
    acp_bounded, card_bounded, confirm_bounded, is_protected, message_fields_truncated,
    messages_bytes, sat, subagent_bounded, tool_card_bounded, AcpPermissionView, CardView,
    ChatRole, ConfirmItemView, MessageView, PermissionOptionView, SubAgentView, ToolCardView,
    ToolConfirmView, VariantView, MAX_CARD_FIELD_BYTES,
};
use crate::cards::opt_view;
use crate::events::{
    block_views, input_opt_view, plan_card, AcpPermissionRequest, BlockView, HistoryItem, InputView,
    ObservationView, PlanView, RuntimeEvent,
};
use crate::text::{is_blank, trim_spec};

verus! {

pub const MAX_TRANSCRIPT_MESSAGES: usize = 500;

pub const MAX_TRANSCRIPT_TEXT_BYTES: usize = 8388608;

pub const MAX_TRANSCRIPT_FIELD_BYTES: usize = 1048576;

/// Observation text shown on a tool card is cut to this many characters.
pub const MAX_DATA_CHARS: usize = 2000;

/// Observation text of terminal commands keeps this many characters.
pub const MAX_TERMINAL_EXEC_DATA_CHARS: usize = 64000;

/// At most this many sub-agents are listed in the sub-agent panel.
pub const MAX_ACTIVE_SUBAGENTS: usize = 64;

/// At most this many terminal events are remembered for de-duplication.
pub const MAX_TERMINAL_EVENTS: usize = 1024;

/// At most this many raw tool inputs are cached.
pub const MAX_CACHED_TOOL_INPUTS: usize = 128;

/// Raw tool inputs larger than this many bytes are not cached.
pub const MAX_CACHED_TOOL_INPUT_BYTES: usize = 1048576;

/// The limits a transcript is kept within.
#[derive(Clone, Copy, Debug, PartialEq, Eq, Structural)]
pub struct TranscriptBudget {
    pub max_messages: usize,
    pub max_text_bytes: usize,
    pub max_field_bytes: usize,
}

/// The key under which a terminal event is de-duplicated.
#[verifier::ext_equal]
pub enum TerminalKeyView {
    AwaitingInput { turn_id: Seq<char>, call_id: Option<Seq<char>>, question_hash: u64 },
    Final(Seq<char>),
}

/// Everything a transcript holds, as mathematical values.
#[verifier::ext_equal]
pub struct TranscriptState {
    pub messages: Seq<MessageView>,
    pub streaming_id: Option<u64>,
    pub active_status_id: Option<u64>,
    pub plan: Option<PlanView>,
    pub subagents: Seq<SubAgentView>,
    pub resource_labels: Seq<(Seq<char>, Seq<char>)>,
    pub tool_inputs: Seq<(Seq<char>, Seq<char>)>,
    pub terminal_events: Seq<TerminalKeyView>,
    pub budget: TranscriptBudget,
    pub next_id: u64,
}

// ----- searching -----

pub open spec fn is_first<A>(s: Seq<A>, p: spec_fn(A) -> bool, i: int) -> bool {
    &&& 0 <= i < s.len()
    &&& p(s[i])
    &&& forall|j: int| 0 <= j < i ==> !p(#[trigger] s[j])
}

/// The index of the first element that satisfies `p`.
pub open spec fn first_index<A>(s: Seq<A>, p: spec_fn(A) -> bool) -> Option<int> {
    if exists|i: int| is_first(s, p, i) {
        Some(choose|i: int| is_first(s, p, i))
    } else {
        None
    }
}

pub open spec fn is_last<A>(s: Seq<A>, p: spec_fn(A) -> bool, i: int) -> bool {
    &&& 0 <= i < s.len()
    &&& p(s[i])
    &&& forall|j: int| i < j < s.len() ==> !p(#[trigger] s[j])
}

/// The index of the last element that satisfies `p`.
pub open spec fn last_index<A>(s: Seq<A>, p: spec_fn(A) -> bool) -> Option<int> {
    if exists|i: int| is_last(s, p, i) {
        Some(choose|i: int| is_last(s, p, i))
    } else {
        None
    }
}

pub proof fn lemma_first_index_is<A>(s: Seq<A>, p: spec_fn(A) -> bool, i: int)
    requires
        is_first(s, p, i),
    ensures
        first_index(s, p) == Some(i),
{
    let c = choose|k: int| is_first(s, p, k);
    assert(is_first(s, p, c));
    if c < i {
        assert(!p(s[c]));
    }
    if c > i {
        assert(!p(s[i]));
    }
}

pub proof fn lemma_first_index_none<A>(s: Seq<A>, p: spec_fn(A) -> bool)
    requires
        forall|j: int| 0 <= j < s.len() ==> !p(#[trigger] s[j]),
    ensures
        first_index(s, p) is None,
{
}

pub proof fn lemma_last_index_is<A>(s: Seq<A>, p: spec_fn(A) -> bool, i: int)
    requires
        is_last(s, p, i),
    ensures
        last_index(s, p) == Some(i),
{
    let c = choose|k: int| is_last(s, p, k);
    assert(is_last(s, p, c));
    if c < i {
        assert(!p(s[i]));
    }
    if c > i {
        assert(!p(s[c]));
    }
}

pub proof fn lemma_last_index_none<A>(s: Seq<A>, p: spec_fn(A) -> bool)
    requires
        forall|j: int| 0 <= j < s.len() ==> !p(#[trigger] s[j]),
    ensures
        last_index(s, p) is None,
{
}

/// A found index lies inside the sequence and its element satisfies `p`.
/// An element that satisfies `p` means a first such element exists.
pub proof fn lemma_first_index_is_some<A>(s: Seq<A>, p: spec_fn(A) -> bool, k: int)
    requires
        0 <= k < s.len(),
        p(s[k]),
    ensures
        first_index(s, p) is Some,
    decreases k,
{
    if forall|j: int| 0 <= j < k ==> !p(#[trigger] s[j]) {
        assert(is_first(s, p, k));
    } else {
        let j = choose|j: int| 0 <= j < k && p(#[trigger] s[j]);
        lemma_first_index_is_some(s, p, j);
    }
}

pub proof fn lemma_first_index_found<A>(s: Seq<A>, p: spec_fn(A) -> bool)
    ensures
        first_index(s, p) matches Some(i) ==> is_first(s, p, i),
{
}

/// An element that satisfies `p` means a last such element exists.
pub proof fn lemma_last_index_is_some<A>(s: Seq<A>, p: spec_fn(A) -> bool, k: int)
    requires
        0 <= k < s.len(),
        p(s[k]),
    ensures
        last_index(s, p) is Some,
    decreases s.len() - k,
{
    if forall|j: int| k < j < s.len() ==> !p(#[trigger] s[j]) {
        assert(is_last(s, p, k));
    } else {
        let j = choose|j: int| k < j < s.len() && p(#[trigger] s[j]);
        lemma_last_index_is_some(s, p, j);
    }
}

pub proof fn lemma_last_index_found<A>(s: Seq<A>, p: spec_fn(A) -> bool)
    ensures
        last_index(s, p) matches Some(i) ==> is_last(s, p, i),
{
}

/// What a message lookup matches on.
pub enum MessageKeyView {
    Id(u64),
    ToolCard(Seq<char>),
    ConfirmCard(Seq<char>),
    AcpCard(Seq<char>),
    SubAgentCard(Seq<char>),
}

pub open spec fn key_matches(k: MessageKeyView, m: MessageView) -> bool {
    match k {
        MessageKeyView::Id(id) => m.id == id,
        MessageKeyView::ToolCard(c) => m.variant matches VariantView::Card(CardView::Tool(d))
            && d.call_id == c,
        MessageKeyView::ConfirmCard(c) => m.variant matches VariantView::Card(
            CardView::ToolConfirm(d),
        ) && d.call_id == c,
        MessageKeyView::AcpCard(r) => m.variant matches VariantView::Card(
            CardView::AcpPermission(d),
        ) && d.request_id == r,
        MessageKeyView::SubAgentCard(s) => m.variant matches VariantView::Card(
            CardView::SubAgent(d),
        ) && d.subagent_id == s,
    }
}

pub open spec fn key_pred(k: MessageKeyView) -> spec_fn(MessageView) -> bool {
    |m: MessageView| key_matches(k, m)
}

pub open spec fn tool_of(m: MessageView) -> ToolCardView {
    match m.variant {
        VariantView::Card(CardView::Tool(d)) => d,
        _ => arbitrary(),
    }
}

pub open spec fn confirm_of(m: MessageView) -> ToolConfirmView {
    match m.variant {
        VariantView::Card(CardView::ToolConfirm(d)) => d,
        _ => arbitrary(),
    }
}

pub open spec fn acp_of(m: MessageView) -> AcpPermissionView {
    match m.variant {
        VariantView::Card(CardView::AcpPermission(d)) => d,
        _ => arbitrary(),
    }
}

pub open spec fn subagent_of(m: MessageView) -> SubAgentView {
    match m.variant {
        VariantView::Card(CardView::SubAgent(d)) => d,
        _ => arbitrary(),
    }
}

// ----- budget -----

/// The transcript holds more messages or more text than its budget allows.
pub open spec fn over_budget(msgs: Seq<MessageView>, b: TranscriptBudget) -> bool {
    msgs.len() > b.max_messages || sat(messages_bytes(msgs)) > b.max_text_bytes
}

/// The first message that is not protected, or the oldest one when every
/// message is protected.
pub open spec fn victim(msgs: Seq<MessageView>, s: Option<u64>, a: Option<u64>) -> int {
    if exists|i: int| 0 <= i < msgs.len() && !is_protected(#[trigger] msgs[i], s, a, None) {
        choose|i: int|
            0 <= i < msgs.len() && !is_protected(msgs[i], s, a, None) && forall|j: int|
                0 <= j < i ==> is_protected(#[trigger] msgs[j], s, a, None)
    } else {
        0
    }
}

pub open spec fn clear_if(o: Option<u64>, id: u64) -> Option<u64> {
    if o == Some(id) {
        None
    } else {
        o
    }
}

pub open spec fn input_call_other_than(call_id: Seq<char>) -> spec_fn((Seq<char>, Seq<char>)) -> bool {
    |e: (Seq<char>, Seq<char>)| e.0 != call_id
}

/// The raw tool inputs without the entry of one call.
pub open spec fn inputs_without(inputs: Seq<(Seq<char>, Seq<char>)>, call_id: Seq<char>) -> Seq<
    (Seq<char>, Seq<char>),
> {
    inputs.filter(input_call_other_than(call_id))
}

/// The tool inputs left after a message is evicted: a tool card takes its
/// cached input with it.
pub open spec fn inputs_after_removal(inputs: Seq<(Seq<char>, Seq<char>)>, m: MessageView) -> Seq<
    (Seq<char>, Seq<char>),
> {
    match m.variant {
        VariantView::Card(CardView::Tool(d)) => inputs_without(inputs, d.call_id),
        _ => inputs,
    }
}

/// The part of a transcript that budget enforcement changes.
#[verifier::ext_equal]
pub struct EvictionState {
    pub messages: Seq<MessageView>,
    pub streaming_id: Option<u64>,
    pub active_status_id: Option<u64>,
    pub tool_inputs: Seq<(Seq<char>, Seq<char>)>,
}

/// One message leaves, with the markers that point at it and the cached
/// input of a tool card.
pub open spec fn remove_at(st: EvictionState, i: int) -> EvictionState {
    let m = st.messages[i];
    EvictionState {
        messages: st.messages.remove(i),
        streaming_id: clear_if(st.streaming_id, m.id),
        active_status_id: clear_if(st.active_status_id, m.id),
        tool_inputs: inputs_after_removal(st.tool_inputs, m),
    }
}

pub open spec fn evict_step(st: EvictionState) -> EvictionState {
    remove_at(st, victim(st.messages, st.streaming_id, st.active_status_id))
}

/// The victim is a message of the transcript whenever there is one.
pub proof fn lemma_victim_in_range(msgs: Seq<MessageView>, s: Option<u64>, a: Option<u64>)
    requires
        msgs.len() > 0,
    ensures
        0 <= victim(msgs, s, a) < msgs.len(),
{
    if exists|i: int| 0 <= i < msgs.len() && !is_protected(#[trigger] msgs[i], s, a, None) {
        let w = choose|i: int| 0 <= i < msgs.len() && !is_protected(#[trigger] msgs[i], s, a, None);
        lemma_first_unprotected_exists(msgs, s, a, w);
    }
}

pub proof fn lemma_first_unprotected_exists(
    msgs: Seq<MessageView>,
    s: Option<u64>,
    a: Option<u64>,
    w: int,
)
    requires
        0 <= w < msgs.len(),
        !is_protected(msgs[w], s, a, None),
    ensures
        exists|i: int|
            0 <= i < msgs.len() && !is_protected(msgs[i], s, a, None) && forall|j: int|
                0 <= j < i ==> is_protected(#[trigger] msgs[j], s, a, None),
    decreases w,
{
    if forall|j: int| 0 <= j < w ==> is_protected(#[trigger] msgs[j], s, a, None) {
    } else {
        let v = choose|j: int| 0 <= j < w && !is_protected(#[trigger] msgs[j], s, a, None);
        lemma_first_unprotected_exists(msgs, s, a, v);
    }
}

/// Evicts one message at a time, the first unprotected one (or the oldest
/// when all are protected), until the transcript is within its budget.
pub open spec fn evict(st: EvictionState, b: TranscriptBudget) -> EvictionState
    decreases st.messages.len(),
{
    if st.messages.len() == 0 || !over_budget(st.messages, b) {
        st
    } else {
        proof {
            lemma_victim_in_range(st.messages, st.streaming_id, st.active_status_id);
        }
        evict(evict_step(st), b)
    }
}

pub open spec fn truncate_all(msgs: Seq<MessageView>, max: int) -> Seq<MessageView> {
    msgs.map_values(|m: MessageView| message_fields_truncated(m, max))
}

pub open spec fn eviction_of(st: TranscriptState) -> EvictionState {
    EvictionState {
        messages: st.messages,
        streaming_id: st.streaming_id,
        active_status_id: st.active_status_id,
        tool_inputs: st.tool_inputs,
    }
}

pub open spec fn with_eviction(st: TranscriptState, e: EvictionState) -> TranscriptState {
    TranscriptState {
        messages: e.messages,
        streaming_id: e.streaming_id,
        active_status_id: e.active_status_id,
        tool_inputs: e.tool_inputs,
        ..st
    }
}

/// Budget enforcement: every field is bounded, then messages are evicted
/// until the transcript fits.
pub open spec fn enforced(st: TranscriptState) -> TranscriptState {
    with_eviction(
        st,
        evict(
            eviction_of(
                TranscriptState {
                    messages: truncate_all(st.messages, st.budget.max_field_bytes as int),
                    ..st
                },
            ),
            st.budget,
        ),
    )
}

// ----- messages -----

pub open spec fn bump(n: u64) -> u64 {
    if n == u64::MAX {
        0
    } else {
        (n + 1) as u64
    }
}

/// The identifier handed out `k` messages after `n`.
pub open spec fn bump_n(n: u64, k: nat) -> u64
    decreases k,
{
    if k == 0 {
        n
    } else {
        bump(bump_n(n, (k - 1) as nat))
    }
}

/// A new message, with the next free identifier, at the end.
pub open spec fn push_message(
    st: TranscriptState,
    role: ChatRole,
    variant: VariantView,
    content: Seq<char>,
    reasoning: Seq<char>,
    streaming: bool,
) -> TranscriptState {
    TranscriptState {
        messages: st.messages.push(
            MessageView {
                id: st.next_id,
                role,
                variant,
                content,
                reasoning_content: reasoning,
                is_streaming: streaming,
            },
        ),
        next_id: bump(st.next_id),
        ..st
    }
}

/// A card message at the end.
pub open spec fn push_card(st: TranscriptState, card: CardView) -> TranscriptState {
    push_message(st, ChatRole::Assistant, VariantView::Card(card), Seq::empty(), Seq::empty(), false)
}

pub open spec fn update_message(st: TranscriptState, i: int, m: MessageView) -> TranscriptState {
    TranscriptState { messages: st.messages.update(i, m), ..st }
}

pub open spec fn id_other_than(id: u64) -> spec_fn(MessageView) -> bool {
    |m: MessageView| m.id != id
}

/// The status line in progress goes away.
pub open spec fn finish_status(st: TranscriptState) -> TranscriptState {
    match st.active_status_id {
        Some(id) => TranscriptState {
            messages: st.messages.filter(id_other_than(id)),
            active_status_id: None,
            ..st
        },
        None => st,
    }
}

pub open spec fn found_by_id(msgs: Seq<MessageView>, id: Option<u64>) -> Option<int> {
    match id {
        Some(id) => first_index(msgs, key_pred(MessageKeyView::Id(id))),
        None => None,
    }
}

/// A streamed piece of the answer (or of the reasoning when `reasoning`)
/// grows the streaming message, or starts one; the text is kept within the
/// field limit.
pub open spec fn delta_applied(st: TranscriptState, delta: Seq<char>, reasoning: bool) -> TranscriptState {
    let s1 = finish_status(st);
    let max = s1.budget.max_field_bytes as int;
    match found_by_id(s1.messages, s1.streaming_id) {
        Some(i) => {
            let m = s1.messages[i];
            if reasoning {
                update_message(
                    s1,
                    i,
                    MessageView {
                        reasoning_content: appended_bounded(m.reasoning_content, delta, max),
                        ..m
                    },
                )
            } else {
                update_message(
                    s1,
                    i,
                    MessageView { content: appended_bounded(m.content, delta, max), ..m },
                )
            }
        },
        None => {
            let s2 = TranscriptState { streaming_id: Some(s1.next_id), ..s1 };
            let grown = appended_bounded(Seq::empty(), delta, max);
            if reasoning {
                push_message(
                    s2,
                    ChatRole::Assistant,
                    VariantView::Text,
                    Seq::empty(),
                    grown,
                    true,
                )
            } else {
                push_message(
                    s2,
                    ChatRole::Assistant,
                    VariantView::Text,
                    grown,
                    Seq::empty(),
                    true,
                )
            }
        },
    }
}

/// The status line is updated in place, or a new one is shown; one that is
/// not done becomes the status in progress.
pub open spec fn status_upserted(st: TranscriptState, title: Seq<char>, is_done: bool) -> TranscriptState {
    match found_by_id(st.messages, st.active_status_id) {
        Some(i) => {
            let m = st.messages[i];
            let s1 = update_message(
                st,
                i,
                MessageView {
                    variant: VariantView::Status { title, is_done },
                    is_streaming: !is_done,
                    ..m
                },
            );
            if is_done {
                TranscriptState { active_status_id: None, ..s1 }
            } else {
                s1
            }
        },
        None => {
            let s1 = if !is_done {
                TranscriptState { active_status_id: Some(st.next_id), ..st }
            } else {
                st
            };
            push_message(
                s1,
                ChatRole::Assistant,
                VariantView::Status { title, is_done },
                Seq::empty(),
                Seq::empty(),
                !is_done,
            )
        },
    }
}

// ----- assistant answers and chart blocks -----

/// A piece of an assistant answer: markdown text, or a chart specification.
#[verifier::ext_equal]
pub enum SegmentView {
    Text(Seq<char>),
    Chart(Seq<char>),
}

/// Chart blocks lie inside the text, in order, without overlapping.
pub open spec fn blocks_valid(text: Seq<char>, blocks: Seq<BlockView>) -> bool {
    &&& forall|k: int|
        0 <= k < blocks.len() ==> 0 <= (#[trigger] blocks[k]).start <= blocks[k].end
            <= text.len()
    &&& forall|j: int, k: int|
        0 <= j < k < blocks.len() ==> (#[trigger] blocks[j]).end <= (#[trigger] blocks[k]).start
}

/// The trimmed text as a segment, unless nothing is left of it.
pub open spec fn text_segment(s: Seq<char>) -> Seq<SegmentView> {
    let t = trim_spec(s);
    if t.len() == 0 {
        Seq::empty()
    } else {
        seq![SegmentView::Text(t)]
    }
}

pub open spec fn segments_from(text: Seq<char>, blocks: Seq<BlockView>, cursor: int) -> Seq<
    SegmentView,
>
    decreases blocks.len(),
{
    if blocks.len() == 0 {
        text_segment(text.subrange(cursor, text.len() as int))
    } else {
        text_segment(text.subrange(cursor, blocks[0].start)) + seq![SegmentView::Chart(blocks[0].code)]
            + segments_from(text, blocks.drop_first(), blocks[0].end)
    }
}

/// An answer without chart blocks stays whole; otherwise the text around
/// each chart block becomes its own (trimmed, non-blank) segment and each
/// block a chart.
pub open spec fn assistant_segments(text: Seq<char>, blocks: Seq<BlockView>) -> Seq<SegmentView> {
    if blocks.len() == 0 || !blocks_valid(text, blocks) {
        seq![SegmentView::Text(text)]
    } else {
        segments_from(text, blocks, 0)
    }
}

pub proof fn lemma_segments_step(text: Seq<char>, bv: Seq<BlockView>, k: int, cursor: int)
    requires
        0 <= k < bv.len(),
    ensures
        segments_from(text, bv.skip(k), cursor) == text_segment(text.subrange(cursor, bv[k].start))
            + seq![SegmentView::Chart(bv[k].code)] + segments_from(text, bv.skip(k + 1), bv[k].end),
{
    assert(bv.skip(k)[0] == bv[k]);
    assert(bv.skip(k).drop_first() =~= bv.skip(k + 1));
}

pub proof fn lemma_segments_end(text: Seq<char>, bv: Seq<BlockView>, cursor: int)
    ensures
        segments_from(text, bv.skip(bv.len() as int), cursor) == text_segment(
            text.subrange(cursor, text.len() as int),
        ),
{
    assert(bv.skip(bv.len() as int).len() == 0);
}

pub open spec fn chart_kind() -> Seq<char> {
    "chart-json"@
}

/// The message that shows one segment.
pub open spec fn segment_message(seg: SegmentView, id: u64, reasoning: Seq<char>) -> MessageView {
    match seg {
        SegmentView::Text(t) => MessageView {
            id,
            role: ChatRole::Assistant,
            variant: VariantView::Text,
            content: t,
            reasoning_content: reasoning,
            is_streaming: false,
        },
        SegmentView::Chart(c) => MessageView {
            id,
            role: ChatRole::Assistant,
            variant: VariantView::Card(CardView::Other(chart_kind())),
            content: c,
            reasoning_content: reasoning,
            is_streaming: false,
        },
    }
}

/// The messages of an answer's segments, numbered from `id`; the first one
/// carries the reasoning.
pub open spec fn segment_messages(segs: Seq<SegmentView>, id: u64, reasoning: Seq<char>) -> Seq<
    MessageView,
> {
    Seq::new(
        segs.len(),
        |k: int|
            segment_message(
                segs[k],
                bump_n(id, k as nat),
                if k == 0 {
                    reasoning
                } else {
                    Seq::empty()
                },
            ),
    )
}

/// The message at `index` is replaced by the messages of `segs`.
pub open spec fn splice_segments(
    st: TranscriptState,
    index: int,
    segs: Seq<SegmentView>,
    reasoning: Seq<char>,
) -> TranscriptState {
    TranscriptState {
        messages: st.messages.take(index) + segment_messages(segs, st.next_id, reasoning)
            + st.messages.skip(index + 1),
        next_id: bump_n(st.next_id, segs.len()),
        ..st
    }
}

pub open spec fn append_segments(st: TranscriptState, segs: Seq<SegmentView>) -> TranscriptState {
    TranscriptState {
        messages: st.messages + segment_messages(segs, st.next_id, Seq::empty()),
        next_id: bump_n(st.next_id, segs.len()),
        ..st
    }
}

/// The final answer replaces the streaming message (keeping its reasoning),
/// or is added when nothing was streamed.
pub open spec fn finalized(st: TranscriptState, text: Seq<char>, blocks: Seq<BlockView>) -> TranscriptState {
    let s1 = finish_status(st);
    let segs = assistant_segments(text, blocks);
    let s2 = TranscriptState { streaming_id: None, ..s1 };
    match found_by_id(s1.messages, s1.streaming_id) {
        Some(i) => splice_segments(s2, i, segs, s1.messages[i].reasoning_content),
        None => append_segments(s2, segs),
    }
}

/// The streaming message is finished where it stands: its text is split
/// into segments by the chart blocks found in it.
pub open spec fn segment_closed(st: TranscriptState, blocks: Seq<BlockView>) -> TranscriptState {
    match st.streaming_id {
        None => st,
        Some(id) => {
            let s2 = TranscriptState { streaming_id: None, ..st };
            match first_index(st.messages, key_pred(MessageKeyView::Id(id))) {
                Some(i) => splice_segments(
                    s2,
                    i,
                    assistant_segments(st.messages[i].content, blocks),
                    st.messages[i].reasoning_content,
                ),
                None => s2,
            }
        },
    }
}

/// Status finished and streaming closed, as before any card is added.
pub open spec fn before_card(st: TranscriptState, blocks: Seq<BlockView>) -> TranscriptState {
    segment_closed(finish_status(st), blocks)
}

pub open spec fn card_field_limit(st: TranscriptState) -> int {
    if st.budget.max_field_bytes < MAX_CARD_FIELD_BYTES {
        st.budget.max_field_bytes as int
    } else {
        MAX_CARD_FIELD_BYTES as int
    }
}

// ----- tool calls -----

/// The raw input of a call is cached (replacing an earlier one of the same
/// call) unless it is too large; the oldest inputs go beyond the cache size.
pub open spec fn input_cached(st: TranscriptState, call_id: Seq<char>, json: Seq<char>) -> TranscriptState {
    let r = inputs_without(st.tool_inputs, call_id);
    let kept = if byte_len(json) > MAX_CACHED_TOOL_INPUT_BYTES {
        r
    } else {
        let p = r.push((call_id, json));
        if p.len() > MAX_CACHED_TOOL_INPUTS {
            p.skip(p.len() - MAX_CACHED_TOOL_INPUTS)
        } else {
            p
        }
    };
    TranscriptState { tool_inputs: kept, ..st }
}

pub open spec fn tool_call_pushed(
    st: TranscriptState,
    call_id: Seq<char>,
    tool_name: Seq<char>,
    input: InputView,
    json: Seq<char>,
    blocks: Seq<BlockView>,
) -> TranscriptState {
    let s1 = input_cached(before_card(st, blocks), call_id, json);
    let d = tool_card_bounded(
        ToolCardView {
            call_id,
            tool_name,
            target_id: None,
            target_label: None,
            input_summary: input.summary,
            input_json: input.json,
            running: true,
            success: None,
            summary: Seq::empty(),
            data_text: Seq::empty(),
        },
        card_field_limit(s1),
    );
    push_card(s1, CardView::Tool(d))
}

pub open spec fn pair_key_is(id: Seq<char>) -> spec_fn((Seq<char>, Seq<char>)) -> bool {
    |e: (Seq<char>, Seq<char>)| e.0 == id
}

/// The label of a resource, or its id when it has none.
pub open spec fn label_of(labels: Seq<(Seq<char>, Seq<char>)>, id: Seq<char>) -> Seq<char> {
    match last_index(labels, pair_key_is(id)) {
        Some(i) => labels[i].1,
        None => id,
    }
}

pub open spec fn is_terminal_exec_tool(name: Seq<char>) -> bool {
    name == "terminal_exec"@ || name == "terminal.exec"@
}

/// How many characters of observation data a card keeps.
pub open spec fn data_char_limit(tool_name: Seq<char>) -> int {
    if is_terminal_exec_tool(tool_name) {
        MAX_TERMINAL_EXEC_DATA_CHARS as int
    } else {
        MAX_DATA_CHARS as int
    }
}

pub open spec fn chars_at_most(s: Seq<char>, n: int) -> Seq<char> {
    if s.len() <= n {
        s
    } else {
        s.subrange(0, n)
    }
}

pub open spec fn opt_label(labels: Seq<(Seq<char>, Seq<char>)>, id: Option<Seq<char>>) -> Option<Seq<char>> {
    match id {
        Some(i) => Some(label_of(labels, i)),
        None => None,
    }
}

/// The observation lands on the call's card (the latest one), or on a new
/// finished card when the call was never shown.
pub open spec fn observation_applied(st: TranscriptState, obs: ObservationView) -> TranscriptState {
    let data_text = chars_at_most(obs.data_text, data_char_limit(obs.tool_name));
    let target_label = opt_label(st.resource_labels, obs.resource_id);
    match last_index(st.messages, key_pred(MessageKeyView::ToolCard(obs.call_id))) {
        Some(i) => {
            let m = st.messages[i];
            update_message(
                st,
                i,
                MessageView {
                    variant: VariantView::Card(
                        CardView::Tool(
                            ToolCardView {
                                target_id: obs.resource_id,
                                target_label,
                                summary: obs.summary,
                                data_text,
                                success: Some(obs.success),
                                ..tool_of(m)
                            },
                        ),
                    ),
                    ..m
                },
            )
        },
        None => push_card(
            st,
            CardView::Tool(
                ToolCardView {
                    call_id: obs.call_id,
                    tool_name: obs.tool_name,
                    target_id: obs.resource_id,
                    target_label,
                    input_summary: Seq::empty(),
                    input_json: Seq::empty(),
                    running: false,
                    success: Some(obs.success),
                    summary: obs.summary,
                    data_text,
                },
            ),
        ),
    }
}

/// The call's cached input is dropped and its card marks the outcome.
pub open spec fn tool_finished(st: TranscriptState, call_id: Seq<char>, success: bool) -> TranscriptState {
    let s1 = TranscriptState { tool_inputs: inputs_without(st.tool_inputs, call_id), ..st };
    match last_index(s1.messages, key_pred(MessageKeyView::ToolCard(call_id))) {
        Some(i) => {
            let m = s1.messages[i];
            update_message(
                s1,
                i,
                MessageView {
                    variant: VariantView::Card(
                        CardView::Tool(
                            ToolCardView { running: false, success: Some(success), ..tool_of(m) },
                        ),
                    ),
                    ..m
                },
            )
        },
        None => s1,
    }
}

pub open spec fn pending_text() -> Seq<char> {
    "pending"@
}

/// The latest confirmation card of the call waits for the user.
pub open spec fn has_pending_confirm(st: TranscriptState, call_id: Seq<char>) -> bool {
    match last_index(st.messages, key_pred(MessageKeyView::ConfirmCard(call_id))) {
        Some(i) => confirm_of(st.messages[i]).status == pending_text(),
        None => false,
    }
}

pub open spec fn empty_input() -> InputView {
    InputView { summary: Seq::empty(), json: Seq::empty() }
}

/// The input shown on a confirmation card: the request's own when it has
/// JSON, else that of the pending call's card.
pub open spec fn confirm_input(
    st: TranscriptState,
    pending_id: Option<Seq<char>>,
    input: Option<InputView>,
) -> InputView {
    if input matches Some(d) && d.json.len() > 0 {
        input->0
    } else {
        match pending_id {
            Some(id) => match last_index(st.messages, key_pred(MessageKeyView::ToolCard(id))) {
                Some(i) => InputView {
                    summary: tool_of(st.messages[i]).input_summary,
                    json: tool_of(st.messages[i]).input_json,
                },
                None => empty_input(),
            },
            None => empty_input(),
        }
    }
}

pub open spec fn unknown_text() -> Seq<char> {
    "unknown"@
}

/// A confirmation card for calls that wait for the user's approval.
pub open spec fn confirm_pushed(
    st: TranscriptState,
    question: Seq<char>,
    pending_id: Option<Seq<char>>,
    tool_name: Option<Seq<char>>,
    input: Option<InputView>,
    items: Seq<ConfirmItemView>,
) -> TranscriptState {
    let s1 = finish_status(st);
    let shown = confirm_input(s1, pending_id, input);
    let d = confirm_bounded(
        ToolConfirmView {
            call_id: match pending_id {
                Some(id) => id,
                None => Seq::empty(),
            },
            tool_name: match tool_name {
                Some(n) => n,
                None => unknown_text(),
            },
            items,
            input_summary: shown.summary,
            input_json: shown.json,
            question,
            status: pending_text(),
        },
        card_field_limit(s1),
    );
    enforced(push_card(s1, CardView::ToolConfirm(d)))
}

/// The latest confirmation card of the call records the decision.
pub open spec fn confirm_resolved(st: TranscriptState, call_id: Seq<char>, approved: bool) -> TranscriptState {
    match last_index(st.messages, key_pred(MessageKeyView::ConfirmCard(call_id))) {
        Some(i) => {
            let m = st.messages[i];
            enforced(
                update_message(
                    st,
                    i,
                    MessageView {
                        variant: VariantView::Card(
                            CardView::ToolConfirm(
                                ToolConfirmView {
                                    status: if approved {
                                        "approved"@
                                    } else {
                                        "rejected"@
                                    },
                                    ..confirm_of(m)
                                },
                            ),
                        ),
                        ..m
                    },
                ),
            )
        },
        None => st,
    }
}

/// A safety confirmation of a public MCP call, unless one is already pending.
pub open spec fn public_mcp_pushed(
    st: TranscriptState,
    request_id: Seq<char>,
    tool_name: Seq<char>,
    input: InputView,
    question: Seq<char>,
    blocks: Seq<BlockView>,
) -> TranscriptState {
    if has_pending_confirm(st, request_id) {
        st
    } else {
        let s1 = before_card(st, blocks);
        let d = confirm_bounded(
            ToolConfirmView {
                call_id: request_id,
                tool_name,
                items: Seq::empty(),
                input_summary: input.summary,
                input_json: input.json,
                question,
                status: pending_text(),
            },
            card_field_limit(s1),
        );
        enforced(push_card(s1, CardView::ToolConfirm(d)))
    }
}

// ----- ACP permission requests -----

/// The (first) permission card of the request waits for the user.
pub open spec fn has_pending_acp(st: TranscriptState, request_id: Seq<char>) -> bool {
    match first_index(st.messages, key_pred(MessageKeyView::AcpCard(request_id))) {
        Some(i) => acp_of(st.messages[i]).status == pending_text(),
        None => false,
    }
}

/// The permission card of a request, unless one is already pending.
pub open spec fn acp_pushed(
    st: TranscriptState,
    request: AcpPermissionView,
    safety: bool,
    notice: Seq<char>,
    blocks: Seq<BlockView>,
) -> TranscriptState {
    if has_pending_acp(st, request.request_id) {
        st
    } else {
        let s1 = before_card(st, blocks);
        let d = acp_bounded(
            AcpPermissionView {
                summary: if safety {
                    notice
                } else {
                    request.summary
                },
                status: pending_text(),
                selected_option_name: Seq::empty(),
                ..request
            },
            card_field_limit(s1),
        );
        enforced(push_card(s1, CardView::AcpPermission(d)))
    }
}

pub open spec fn starts_with(s: Seq<char>, prefix: Seq<char>) -> bool {
    prefix.len() <= s.len() && s.subrange(0, prefix.len() as int) == prefix
}

/// The request's card records its outcome: `status` and the chosen option.
pub open spec fn acp_updated(
    st: TranscriptState,
    request_id: Seq<char>,
    status: Seq<char>,
    selected: Seq<char>,
) -> TranscriptState {
    match first_index(st.messages, key_pred(MessageKeyView::AcpCard(request_id))) {
        Some(i) => {
            let m = st.messages[i];
            enforced(
                update_message(
                    st,
                    i,
                    MessageView {
                        variant: VariantView::Card(
                            CardView::AcpPermission(
                                AcpPermissionView {
                                    status,
                                    selected_option_name: selected,
                                    ..acp_of(m)
                                },
                            ),
                        ),
                        ..m
                    },
                ),
            )
        },
        None => st,
    }
}

/// The status an option leads to: rejecting kinds reject, others approve.
pub open spec fn option_status(option: PermissionOptionView) -> Seq<char> {
    if starts_with(option.kind, "reject"@) {
        "rejected"@
    } else {
        "approved"@
    }
}

// ----- sub-agents -----

pub open spec fn subagent_id_is(id: Seq<char>) -> spec_fn(SubAgentView) -> bool {
    |d: SubAgentView| d.subagent_id == id
}

pub open spec fn not_running() -> spec_fn(SubAgentView) -> bool {
    |d: SubAgentView| !d.running
}

/// The panel keeps its size: the first finished sub-agent goes first, the
/// oldest one when all are running.
pub open spec fn trim_subagents(s: Seq<SubAgentView>) -> Seq<SubAgentView>
    decreases s.len(),
{
    if s.len() <= MAX_ACTIVE_SUBAGENTS {
        s
    } else {
        let i = match first_index(s, not_running()) {
            Some(i) => i,
            None => 0,
        };
        proof {
            lemma_first_index_found(s, not_running());
        }
        trim_subagents(s.remove(i))
    }
}

/// The sub-agent replaces its earlier entry in the panel or joins it.
pub open spec fn subagents_upserted(s: Seq<SubAgentView>, d: SubAgentView) -> Seq<SubAgentView> {
    let grown = match first_index(s, subagent_id_is(d.subagent_id)) {
        Some(i) => s.update(i, d),
        None => s.push(d),
    };
    trim_subagents(grown)
}

pub open spec fn panel_upserted(st: TranscriptState, d: SubAgentView) -> TranscriptState {
    TranscriptState {
        subagents: subagents_upserted(st.subagents, subagent_bounded(d, card_field_limit(st))),
        ..st
    }
}

/// The sub-agent as last shown: its latest card, else its panel entry.
pub open spec fn find_subagent(st: TranscriptState, id: Seq<char>) -> Option<SubAgentView> {
    match last_index(st.messages, key_pred(MessageKeyView::SubAgentCard(id))) {
        Some(i) => Some(subagent_of(st.messages[i])),
        None => match first_index(st.subagents, subagent_id_is(id)) {
            Some(j) => Some(st.subagents[j]),
            None => None,
        },
    }
}

pub open spec fn subagent_card_replaced(st: TranscriptState, id: Seq<char>, d: SubAgentView) -> TranscriptState {
    match last_index(st.messages, key_pred(MessageKeyView::SubAgentCard(id))) {
        Some(i) => update_message(
            st,
            i,
            MessageView { variant: VariantView::Card(CardView::SubAgent(d)), ..st.messages[i] },
        ),
        None => st,
    }
}

pub open spec fn subagent_pushed(
    st: TranscriptState,
    id: Seq<char>,
    name: Seq<char>,
    task: Seq<char>,
    blocks: Seq<BlockView>,
) -> TranscriptState {
    let s1 = before_card(st, blocks);
    let d = subagent_bounded(
        SubAgentView {
            subagent_id: id,
            name,
            task,
            running: true,
            success: None,
            summary: Seq::empty(),
        },
        card_field_limit(s1),
    );
    push_card(panel_upserted(s1, d), CardView::SubAgent(d))
}

pub open spec fn subagent_updated(st: TranscriptState, id: Seq<char>, summary: Seq<char>) -> TranscriptState {
    match find_subagent(st, id) {
        Some(d0) => {
            let d = SubAgentView { summary, ..d0 };
            subagent_card_replaced(panel_upserted(st, d), id, d)
        },
        None => st,
    }
}

pub open spec fn subagent_finished(
    st: TranscriptState,
    id: Seq<char>,
    success: bool,
    summary: Seq<char>,
) -> TranscriptState {
    match find_subagent(st, id) {
        Some(d0) => {
            let d = SubAgentView {
                running: false,
                success: Some(success),
                summary: if summary.len() == 0 {
                    d0.summary
                } else {
                    summary
                },
                ..d0
            };
            subagent_card_replaced(panel_upserted(st, d), id, d)
        },
        None => st,
    }
}

// ----- de-duplication of terminal events -----

/// A key not seen yet is remembered (the oldest are forgotten beyond the
/// window) and the event goes through; a key seen before stops it.
pub open spec fn recorded(keys: Seq<TerminalKeyView>, k: TerminalKeyView) -> (Seq<TerminalKeyView>, bool) {
    if keys.contains(k) {
        (keys, false)
    } else {
        let p = keys.push(k);
        (
            if p.len() > MAX_TERMINAL_EVENTS {
                p.skip(p.len() - MAX_TERMINAL_EVENTS)
            } else {
                p
            },
            true,
        )
    }
}

/// What a sub-agent's history entry reports as its summary: its data when
/// there is any, its summary line otherwise.
pub open spec fn history_summary(obs: ObservationView) -> Seq<char> {
    if is_blank(obs.data_text) {
        obs.summary
    } else {
        obs.data_text
    }
}

/// The transcript after `clear`: the conversation goes, the labels and the
/// budget stay.
pub open spec fn cleared(st: TranscriptState) -> TranscriptState {
    TranscriptState {
        messages: Seq::empty(),
        streaming_id: None,
        active_status_id: None,
        plan: None,
        subagents: Seq::empty(),
        tool_inputs: Seq::empty(),
        terminal_events: Seq::empty(),
        ..st
    }
}

/// The std hash of a text (`DefaultHasher`).
pub uninterp spec fn str_hash(s: Seq<char>) -> u64;

/// The key under which an event is de-duplicated, for the events that end
/// or pause a turn.
pub open spec fn terminal_key(ev: RuntimeEvent) -> Option<TerminalKeyView> {
    match ev {
        RuntimeEvent::NeedUserInput { turn_id, pending_tool_call_id, question, .. } => Some(
            TerminalKeyView::AwaitingInput {
                turn_id: turn_id@,
                call_id: opt_view(pending_tool_call_id),
                question_hash: str_hash(question@),
            },
        ),
        RuntimeEvent::TurnCompleted { turn_id } => Some(TerminalKeyView::Final(turn_id@)),
        RuntimeEvent::TurnCancelled { turn_id, .. } => Some(TerminalKeyView::Final(turn_id@)),
        RuntimeEvent::TurnFailed { turn_id, .. } => Some(TerminalKeyView::Final(turn_id@)),
        _ => None,
    }
}

pub open spec fn system_pushed(st: TranscriptState, text: Seq<char>) -> TranscriptState {
    push_message(st, ChatRole::System, VariantView::Text, text, Seq::empty(), false)
}

pub open spec fn user_pushed(st: TranscriptState, text: Seq<char>) -> TranscriptState {
    push_message(st, ChatRole::User, VariantView::Text, text, Seq::empty(), false)
}

/// What one event does before budget enforcement; `blocks` are the chart
/// blocks of the streaming message, for when it is closed.
pub open spec fn handled(st: TranscriptState, ev: RuntimeEvent, blocks: Seq<BlockView>) -> TranscriptState {
    match ev {
        RuntimeEvent::TurnStarted { .. } => TranscriptState {
            streaming_id: None,
            active_status_id: None,
            ..st
        },
        RuntimeEvent::AssistantMessageDelta { delta, .. } => delta_applied(st, delta@, false),
        RuntimeEvent::ReasoningDelta { delta, .. } => delta_applied(st, delta@, true),
        RuntimeEvent::AssistantMessage { text, chart_blocks, .. } => finalized(
            st,
            text@,
            block_views(chart_blocks@),
        ),
        RuntimeEvent::UserMessage { text, .. } => enforced(user_pushed(st, text@)),
        RuntimeEvent::Status { title, is_done, .. } => status_upserted(st, title@, is_done),
        RuntimeEvent::PlanUpdated { plan, .. } => TranscriptState {
            plan: Some(plan_card(plan)),
            ..st
        },
        RuntimeEvent::SubAgentStarted { subagent_id, name, task, .. } => subagent_pushed(
            st,
            subagent_id@,
            name@,
            task@,
            blocks,
        ),
        RuntimeEvent::SubAgentUpdated { subagent_id, summary, .. } => subagent_updated(
            st,
            subagent_id@,
            summary@,
        ),
        RuntimeEvent::SubAgentFinished { subagent_id, success, summary, .. } => subagent_finished(
            st,
            subagent_id@,
            success,
            summary@,
        ),
        RuntimeEvent::ToolCallStarted { call_id, tool_name, input, arguments_json, .. } =>
            tool_call_pushed(st, call_id@, tool_name@, input@, arguments_json@, blocks),
        RuntimeEvent::ObservationAdded { observation, .. } => observation_applied(st, observation@),
        RuntimeEvent::ToolCallFinished { call_id, success, .. } => tool_finished(
            st,
            call_id@,
            success,
        ),
        RuntimeEvent::NeedUserInput {
            question,
            pending_tool_call_id,
            tool_name,
            input,
            pending_tool_calls,
            ..
        } => confirm_pushed(
            st,
            question@,
            opt_view(pending_tool_call_id),
            opt_view(tool_name),
            input_opt_view(input),
            pending_tool_calls@.map_values(|i: crate::cards::ToolConfirmItemData| i@),
        ),
        RuntimeEvent::ToolApprovalResolved { call_id, approved, .. } => confirm_resolved(
            st,
            call_id@,
            approved,
        ),
        RuntimeEvent::TurnFailed { notice, .. } => system_pushed(
            TranscriptState { streaming_id: None, ..finish_status(st) },
            notice@,
        ),
        RuntimeEvent::TurnCancelled { notice, .. } => system_pushed(
            before_card(st, blocks),
            notice@,
        ),
        RuntimeEvent::TurnCompleted { .. } => before_card(st, blocks),
    }
}

/// An event is applied, and the budget enforced, unless it repeats a
/// terminal event already seen; the flag says whether it was applied.
pub open spec fn applied(st: TranscriptState, ev: RuntimeEvent, blocks: Seq<BlockView>) -> (
    TranscriptState,
    bool,
) {
    match terminal_key(ev) {
        Some(k) => {
            let (keys, fresh) = recorded(st.terminal_events, k);
            if fresh {
                (enforced(handled(TranscriptState { terminal_events: keys, ..st }, ev, blocks)), true)
            } else {
                (st, false)
            }
        },
        None => (enforced(handled(st, ev, blocks)), true),
    }
}

/// The card view of an ACP permission request before its status is set.
pub open spec fn acp_request_view(r: AcpPermissionRequest) -> AcpPermissionView {
    AcpPermissionView {
        request_id: r.request_id@,
        session_id: r.session_id@,
        tool_call_id: opt_view(r.tool_call_id),
        tool_name: r.tool_name@,
        summary: r.summary@,
        details_json: r.details_json@,
        options: r.options@.map_values(|o: crate::cards::AcpPermissionOptionData| o@),
        status: Seq::empty(),
        selected_option_name: Seq::empty(),
    }
}

pub open spec fn field_key_is(key: Seq<char>) -> spec_fn((Seq<char>, Seq<char>)) -> bool {
    |e: (Seq<char>, Seq<char>)| e.0 == key
}

/// The string at `key` among the arguments' string fields.
pub open spec fn string_field(fields: Seq<(Seq<char>, Seq<char>)>, key: Seq<char>) -> Option<Seq<char>> {
    match first_index(fields, field_key_is(key)) {
        Some(i) => Some(fields[i].1),
        None => None,
    }
}

/// The sub-agent name and task of a `delegate_task` call: both fields
/// present, trimmed and non-empty.
pub open spec fn delegate_args(fields: Seq<(Seq<char>, Seq<char>)>) -> Option<(Seq<char>, Seq<char>)> {
    match (string_field(fields, "name"@), string_field(fields, "task"@)) {
        (Some(n), Some(t)) => if trim_spec(n).len() == 0 || trim_spec(t).len() == 0 {
            None
        } else {
            Some((trim_spec(n), trim_spec(t)))
        },
        _ => None,
    }
}

pub open spec fn delegate_tool() -> Seq<char> {
    "delegate_task"@
}

/// What one history entry adds.
pub open spec fn history_item(st: TranscriptState, item: HistoryItem) -> TranscriptState {
    match item {
        HistoryItem::User { text, image_count, images_text } => enforced(
            user_pushed(
                st,
                if image_count > 0 {
                    images_text@
                } else {
                    text@
                },
            ),
        ),
        HistoryItem::Assistant(text) => push_message(
            st,
            ChatRole::Assistant,
            VariantView::Text,
            text@,
            Seq::empty(),
            false,
        ),
        HistoryItem::AssistantWithReasoning { text, reasoning } => push_message(
            st,
            ChatRole::Assistant,
            VariantView::Text,
            text@,
            reasoning@,
            false,
        ),
        HistoryItem::System(text) => enforced(system_pushed(st, text@)),
        HistoryItem::ContextSummary(text) => enforced(system_pushed(st, text@)),
        HistoryItem::ToolCall { call_id, tool_name, input, arguments_json, arguments } => {
            if tool_name@ == delegate_tool() && delegate_args(arguments@) is Some {
                let (n, t) = delegate_args(arguments@)->0;
                subagent_pushed(st, call_id@, n, t, Seq::empty())
            } else {
                tool_call_pushed(st, call_id@, tool_name@, input@, arguments_json@, Seq::empty())
            }
        },
        HistoryItem::Observation(obs) => {
            if obs.tool_name@ == delegate_tool() && find_subagent(st, obs.call_id@) is Some {
                subagent_finished(st, obs.call_id@, obs.success, history_summary(obs@))
            } else {
                tool_finished(observation_applied(st, obs@), obs.call_id@, obs.success)
            }
        },
    }
}

/// The history entries replayed one by one, the budget enforced after each.
pub open spec fn history_applied(st: TranscriptState, items: Seq<HistoryItem>) -> TranscriptState
    decreases items.len(),
{
    if items.len() == 0 {
        st
    } else {
        enforced(history_item(history_applied(st, items.drop_last()), items.last()))
    }
}

/// A session restored from its history: the transcript is cleared, the
/// entries replayed, the plan shown, and the budget enforced.
pub open spec fn loaded(
    st: TranscriptState,
    items: Seq<HistoryItem>,
    plan: Option<crate::events::Plan>,
) -> TranscriptState {
    let s1 = history_applied(cleared(st), items);
    enforced(
        match plan {
            Some(p) => TranscriptState { plan: Some(plan_card(p)), ..s1 },
            None => s1,
        },
    )
}

} // verus!
