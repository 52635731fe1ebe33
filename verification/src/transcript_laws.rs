//! Properties that hold of every transcript update.
use vstd::prelude::*;

use crate::cards::{is_protected, CardView, ChatRole, MessageView, SubAgentView, VariantView};
use crate::events::{BlockView, RuntimeEvent};
use crate::budget::{
    byte_len, lemma_encode_concat, lemma_prefix_fits,
    lemma_suffix_fits, marker, strip_marker, truncated_recent, utf8_suffix_spec, MARKER_BYTES,
};
use crate::transcript_model::{
    applied, before_card, cleared, enforced, evict, evict_step, finish_status, handled,
    history_applied, loaded, user_pushed, lemma_victim_in_range, over_budget, recorded,
    terminal_key, truncate_all, victim, EvictionState, TerminalKeyView, TranscriptBudget,
    TranscriptState, MAX_TERMINAL_EVENTS, is_last, key_matches, key_pred, last_index, tool_of,
    tool_finished, MessageKeyView, lemma_last_index_is, subagent_of, find_subagent,
    subagent_finished, panel_upserted, subagent_card_replaced, observation_applied,
    chars_at_most, data_char_limit, MAX_DATA_CHARS, MAX_TERMINAL_EXEC_DATA_CHARS, delta_applied,
    found_by_id, trim_subagents, first_index, MAX_ACTIVE_SUBAGENTS, inputs_without,
    input_call_other_than, input_cached, pair_key_is, MAX_CACHED_TOOL_INPUTS,
    MAX_CACHED_TOOL_INPUT_BYTES,
};

verus! {

/// Eviction stops only once the transcript fits its budget.
pub proof fn lemma_evict_fits(e: EvictionState, b: TranscriptBudget)
    ensures
        !over_budget(evict(e, b).messages, b),
    decreases e.messages.len(),
{
    if e.messages.len() == 0 {
        assert(crate::cards::messages_bytes(e.messages) == 0);
    } else if over_budget(e.messages, b) {
        lemma_victim_in_range(e.messages, e.streaming_id, e.active_status_id);
        lemma_evict_fits(evict_step(e), b);
    }
}

/// After budget enforcement the transcript holds no more messages and no
/// more text than its budget allows, and the budget is unchanged.
pub proof fn lemma_enforced_fits(st: TranscriptState)
    ensures
        !over_budget(enforced(st).messages, enforced(st).budget),
        enforced(st).budget == st.budget,
{
    let t = TranscriptState {
        messages: crate::transcript_model::truncate_all(st.messages, st.budget.max_field_bytes as int),
        ..st
    };
    lemma_evict_fits(crate::transcript_model::eviction_of(t), st.budget);
}

/// Budget enforcement evicts completed messages before any message in
/// progress (streaming text, the running status, running tool calls and
/// sub-agents, pending approvals), and among those the oldest first.
pub proof fn lemma_victim_is_oldest_completed(
    msgs: Seq<MessageView>,
    streaming_id: Option<u64>,
    active_status_id: Option<u64>,
    i: int,
)
    requires
        0 <= i < msgs.len(),
        !is_protected(msgs[i], streaming_id, active_status_id, None),
    ensures
        0 <= victim(msgs, streaming_id, active_status_id) <= i,
        !is_protected(
            msgs[victim(msgs, streaming_id, active_status_id)],
            streaming_id,
            active_status_id,
            None,
        ),
        forall|j: int|
            0 <= j < victim(msgs, streaming_id, active_status_id) ==> is_protected(
                #[trigger] msgs[j],
                streaming_id,
                active_status_id,
                None,
            ),
{
    crate::transcript_model::lemma_first_unprotected_exists(msgs, streaming_id, active_status_id, i);
    let v = victim(msgs, streaming_id, active_status_id);
    if v > i {
        assert(is_protected(msgs[i], streaming_id, active_status_id, None));
    }
}

/// A key just recorded is remembered.
pub proof fn lemma_recorded_contains(keys: Seq<TerminalKeyView>, k: TerminalKeyView)
    ensures
        recorded(keys, k).0.contains(k),
{
    if !keys.contains(k) {
        let p = keys.push(k);
        assert(p[p.len() - 1] == k);
        if p.len() > MAX_TERMINAL_EVENTS {
            let q = p.skip(p.len() - MAX_TERMINAL_EVENTS);
            assert(q[q.len() - 1] == k);
        }
    }
}

proof fn lemma_enforced_keeps_keys(st: TranscriptState)
    ensures
        enforced(st).terminal_events == st.terminal_events,
{
}

proof fn lemma_before_card_keeps_keys(st: TranscriptState, blocks: Seq<BlockView>)
    ensures
        before_card(st, blocks).terminal_events == st.terminal_events,
        finish_status(st).terminal_events == st.terminal_events,
{
}

/// Handling an event leaves the remembered terminal events alone.
#[verifier::rlimit(40)]
pub proof fn lemma_handled_keeps_keys(st: TranscriptState, ev: RuntimeEvent, blocks: Seq<BlockView>)
    ensures
        handled(st, ev, blocks).terminal_events == st.terminal_events,
{
    lemma_before_card_keeps_keys(st, blocks);
    match ev {
        RuntimeEvent::UserMessage { text, .. } => {
            lemma_enforced_keeps_keys(user_pushed(st, text@));
        },
        _ => {},
    }
}

/// A terminal event (the end of a turn, or a request for the user's input)
/// is applied at most once: applied again right away, it changes nothing and
/// is reported as not applied.
pub proof fn lemma_terminal_event_applies_once(
    st: TranscriptState,
    ev: RuntimeEvent,
    blocks: Seq<BlockView>,
)
    requires
        terminal_key(ev) is Some,
    ensures
        applied(applied(st, ev, blocks).0, ev, blocks) == (applied(st, ev, blocks).0, false),
{
    let k = terminal_key(ev)->0;
    let (keys, fresh) = recorded(st.terminal_events, k);
    lemma_recorded_contains(st.terminal_events, k);
    if fresh {
        let st1 = TranscriptState { terminal_events: keys, ..st };
        lemma_handled_keeps_keys(st1, ev, blocks);
    }
}

/// The reasoning of every message, and the text of a text message, fit the
/// field limit.
pub open spec fn fields_fit(msgs: Seq<MessageView>, max: int) -> bool {
    forall|i: int|
        0 <= i < msgs.len() ==> byte_len((#[trigger] msgs[i]).reasoning_content) <= max && (
        msgs[i].variant is Text ==> byte_len(msgs[i].content) <= max)
}

/// The transcript holds to its whole budget: message count, total text and
/// the field limit.
pub open spec fn within_budget(st: TranscriptState) -> bool {
    &&& !over_budget(st.messages, st.budget)
    &&& fields_fit(st.messages, st.budget.max_field_bytes as int)
}

proof fn lemma_truncated_fits(s: Seq<char>, max: int)
    requires
        max >= 0,
    ensures
        byte_len(truncated_recent(s, max)) <= max,
{
    if byte_len(s) <= max {
    } else if max <= MARKER_BYTES {
        lemma_prefix_fits(marker(), max);
    } else {
        let tail = utf8_suffix_spec(strip_marker(s), max - MARKER_BYTES);
        lemma_suffix_fits(strip_marker(s), max - MARKER_BYTES);
        lemma_encode_concat(marker(), tail);
        reveal_strlit("[...earlier content truncated...]\n");
        assert(vstd::utf8::is_ascii_chars(marker()));
        vstd::utf8::is_ascii_chars_encode_utf8(marker());
    }
}

proof fn lemma_remove_keeps_fit(msgs: Seq<MessageView>, max: int, i: int)
    requires
        fields_fit(msgs, max),
        0 <= i < msgs.len(),
    ensures
        fields_fit(msgs.remove(i), max),
{
    let r = msgs.remove(i);
    assert forall|j: int| 0 <= j < r.len() implies byte_len((#[trigger] r[j]).reasoning_content) <= max
        && (r[j].variant is Text ==> byte_len(r[j].content) <= max) by {
        if j < i {
            assert(r[j] == msgs[j]);
        } else {
            assert(r[j] == msgs[j + 1]);
        }
    }
}

proof fn lemma_evict_keeps_fit(e: EvictionState, b: TranscriptBudget, max: int)
    requires
        fields_fit(e.messages, max),
    ensures
        fields_fit(evict(e, b).messages, max),
    decreases e.messages.len(),
{
    if e.messages.len() > 0 && over_budget(e.messages, b) {
        lemma_victim_in_range(e.messages, e.streaming_id, e.active_status_id);
        lemma_remove_keeps_fit(e.messages, max, victim(e.messages, e.streaming_id, e.active_status_id));
        lemma_evict_keeps_fit(evict_step(e), b, max);
    }
}

/// After budget enforcement every message's reasoning, and the text of every
/// text message, fit the field limit, besides the count and text limits.
pub proof fn lemma_enforced_within_budget(st: TranscriptState)
    ensures
        within_budget(enforced(st)),
        enforced(st).budget == st.budget,
{
    lemma_enforced_fits(st);
    let max = st.budget.max_field_bytes as int;
    let t = truncate_all(st.messages, max);
    assert forall|i: int| 0 <= i < t.len() implies byte_len((#[trigger] t[i]).reasoning_content) <= max
        && (t[i].variant is Text ==> byte_len(t[i].content) <= max) by {
        lemma_truncated_fits(st.messages[i].reasoning_content, max);
        lemma_truncated_fits(st.messages[i].content, max);
    }
    lemma_evict_keeps_fit(
        crate::transcript_model::eviction_of(TranscriptState { messages: t, ..st }),
        st.budget,
        max,
    );
}

/// Applying an event keeps a transcript within its budget, whatever the
/// event, and leaves the budget itself unchanged.
pub proof fn lemma_applied_keeps_budget(st: TranscriptState, ev: RuntimeEvent, blocks: Seq<BlockView>)
    requires
        within_budget(st),
    ensures
        within_budget(applied(st, ev, blocks).0),
        applied(st, ev, blocks).0.budget == st.budget,
{
    match terminal_key(ev) {
        Some(k) => {
            let (keys, fresh) = recorded(st.terminal_events, k);
            if fresh {
                let st1 = TranscriptState { terminal_events: keys, ..st };
                lemma_enforced_within_budget(handled(st1, ev, blocks));
                lemma_handled_keeps_budget(st1, ev, blocks);
            }
        },
        None => {
            lemma_enforced_within_budget(handled(st, ev, blocks));
            lemma_handled_keeps_budget(st, ev, blocks);
        },
    }
}

/// Handling an event leaves the budget alone.
#[verifier::rlimit(40)]
proof fn lemma_handled_keeps_budget(st: TranscriptState, ev: RuntimeEvent, blocks: Seq<BlockView>)
    ensures
        handled(st, ev, blocks).budget == st.budget,
{
    lemma_before_card_keeps_budget(st, blocks);
    match ev {
        RuntimeEvent::UserMessage { text, .. } => {
            lemma_enforced_fits(user_pushed(st, text@));
        },
        _ => {},
    }
}

proof fn lemma_before_card_keeps_budget(st: TranscriptState, blocks: Seq<BlockView>)
    ensures
        before_card(st, blocks).budget == st.budget,
        finish_status(st).budget == st.budget,
{
}

/// Loading a session's history discards everything the transcript held
/// before: two transcripts with the same budget, resource labels and next
/// message id load to the same state.
pub proof fn lemma_load_history_discards_earlier_state(
    st1: TranscriptState,
    st2: TranscriptState,
    items: Seq<crate::events::HistoryItem>,
    plan: Option<crate::events::Plan>,
)
    requires
        st1.budget == st2.budget,
        st1.resource_labels == st2.resource_labels,
        st1.next_id == st2.next_id,
    ensures
        loaded(st1, items, plan) == loaded(st2, items, plan),
        within_budget(loaded(st1, items, plan)),
{
    assert(cleared(st1) == cleared(st2));
    let s1 = history_applied(cleared(st1), items);
    lemma_enforced_within_budget(
        match plan {
            Some(p) => TranscriptState { plan: Some(crate::events::plan_card(p)), ..s1 },
            None => s1,
        },
    );
}

/// When a tool call finishes, its latest card records the outcome that was
/// reported: it stops running and its `success` is exactly the reported
/// one (`Some(false)` for a failed call).  The card keeps its id, call,
/// tool, input, summary and output, no other message changes, and with no
/// card for the call the messages stay as they were.
pub proof fn lemma_finished_tool_records_outcome(
    st: TranscriptState,
    ev: RuntimeEvent,
    blocks: Seq<BlockView>,
)
    requires
        ev is ToolCallFinished,
    ensures
        ({
            let call_id = ev->ToolCallFinished_call_id@;
            let success = ev->ToolCallFinished_success;
            let old_msgs = st.messages;
            let new_msgs = handled(st, ev, blocks).messages;
            &&& new_msgs.len() == old_msgs.len()
            &&& match last_index(old_msgs, key_pred(MessageKeyView::ToolCard(call_id))) {
                Some(i) => {
                    &&& 0 <= i < old_msgs.len()
                    &&& key_matches(MessageKeyView::ToolCard(call_id), new_msgs[i])
                    &&& new_msgs[i].id == old_msgs[i].id
                    &&& !tool_of(new_msgs[i]).running
                    &&& tool_of(new_msgs[i]).success == Some(success)
                    &&& tool_of(new_msgs[i]).tool_name == tool_of(old_msgs[i]).tool_name
                    &&& tool_of(new_msgs[i]).input_json == tool_of(old_msgs[i]).input_json
                    &&& tool_of(new_msgs[i]).summary == tool_of(old_msgs[i]).summary
                    &&& tool_of(new_msgs[i]).data_text == tool_of(old_msgs[i]).data_text
                    &&& forall|j: int|
                        0 <= j < old_msgs.len() && j != i ==> new_msgs[j] == old_msgs[j]
                },
                None => new_msgs == old_msgs,
            }
        }),
{
    let call_id = ev->ToolCallFinished_call_id@;
    let p = key_pred(MessageKeyView::ToolCard(call_id));
    assert(handled(st, ev, blocks) == tool_finished(st, call_id, ev->ToolCallFinished_success));
    if let Some(i) = last_index(st.messages, p) {
        assert(is_last(st.messages, p, i));
    }
}

/// A tool call that starts shows as the newest message: a running card of
/// that call with no outcome yet.  When the same call then finishes, that
/// card stops running and records the reported outcome, and no message is
/// added or removed.
pub proof fn lemma_tool_call_lifecycle(
    st: TranscriptState,
    start: RuntimeEvent,
    finish: RuntimeEvent,
    blocks1: Seq<BlockView>,
    blocks2: Seq<BlockView>,
)
    requires
        start is ToolCallStarted,
        finish is ToolCallFinished,
        finish->ToolCallFinished_call_id@ == start->ToolCallStarted_call_id@,
    ensures
        ({
            let call_id = start->ToolCallStarted_call_id@;
            let s1 = handled(st, start, blocks1);
            let s2 = handled(s1, finish, blocks2);
            let n = s1.messages.len();
            &&& n > 0
            &&& key_matches(MessageKeyView::ToolCard(call_id), s1.messages[n - 1])
            &&& tool_of(s1.messages[n - 1]).running
            &&& tool_of(s1.messages[n - 1]).success is None
            &&& s2.messages.len() == n
            &&& key_matches(MessageKeyView::ToolCard(call_id), s2.messages[n - 1])
            &&& !tool_of(s2.messages[n - 1]).running
            &&& tool_of(s2.messages[n - 1]).success == Some(finish->ToolCallFinished_success)
        }),
{
    let call_id = start->ToolCallStarted_call_id@;
    let s1 = handled(st, start, blocks1);
    let n = s1.messages.len();
    let p = key_pred(MessageKeyView::ToolCard(call_id));
    assert(p(s1.messages[n - 1]));
    assert(is_last(s1.messages, p, n - 1));
    lemma_last_index_is(s1.messages, p, n - 1);
    lemma_finished_tool_records_outcome(s1, finish, blocks2);
}

/// A sub-agent that starts shows as the newest message, running with no
/// outcome.  When it then finishes, the transcript shows it finished with
/// the reported outcome, and with the reported summary unless that is
/// empty.
pub proof fn lemma_subagent_lifecycle(
    st: TranscriptState,
    start: RuntimeEvent,
    finish: RuntimeEvent,
    blocks1: Seq<BlockView>,
    blocks2: Seq<BlockView>,
)
    requires
        start is SubAgentStarted,
        finish is SubAgentFinished,
        finish->SubAgentFinished_subagent_id@ == start->SubAgentStarted_subagent_id@,
    ensures
        ({
            let id = start->SubAgentStarted_subagent_id@;
            let s1 = handled(st, start, blocks1);
            let s2 = handled(s1, finish, blocks2);
            let n = s1.messages.len();
            &&& n > 0
            &&& key_matches(MessageKeyView::SubAgentCard(id), s1.messages[n - 1])
            &&& subagent_of(s1.messages[n - 1]).running
            &&& subagent_of(s1.messages[n - 1]).success is None
            &&& s2.messages.len() == n
            &&& find_subagent(s2, id) matches Some(d) && !d.running && d.success == Some(
                finish->SubAgentFinished_success,
            ) && (finish->SubAgentFinished_summary@.len() > 0 ==> d.summary
                == finish->SubAgentFinished_summary@)
        }),
{
    let id = start->SubAgentStarted_subagent_id@;
    let s1 = handled(st, start, blocks1);
    let n = s1.messages.len();
    let p = key_pred(MessageKeyView::SubAgentCard(id));
    assert(p(s1.messages[n - 1]));
    assert(is_last(s1.messages, p, n - 1));
    lemma_last_index_is(s1.messages, p, n - 1);
    let success = finish->SubAgentFinished_success;
    let summary = finish->SubAgentFinished_summary@;
    assert(handled(s1, finish, blocks2) == subagent_finished(s1, id, success, summary));
    let d0 = subagent_of(s1.messages[n - 1]);
    assert(find_subagent(s1, id) == Some(d0));
    let d = SubAgentView {
        running: false,
        success: Some(success),
        summary: if summary.len() == 0 {
            d0.summary
        } else {
            summary
        },
        ..d0
    };
    let s1p = panel_upserted(s1, d);
    assert(s1p.messages == s1.messages);
    let s2 = subagent_card_replaced(s1p, id, d);
    assert(s2.messages[n - 1].variant == VariantView::Card(CardView::SubAgent(d)));
    assert(p(s2.messages[n - 1]));
    assert(is_last(s2.messages, p, n - 1));
    lemma_last_index_is(s2.messages, p, n - 1);
}

/// An observation shows on the call's latest card, or on a new finished
/// card at the end when the call was never shown: the card records the
/// reported outcome, summary and resource, and the start of the output, cut
/// to the tool's limit (longer for terminal commands).  A card that already
/// existed keeps its place, id and running state, and nothing else moves.
pub proof fn lemma_observation_shown_on_card(st: TranscriptState, ev: RuntimeEvent, blocks: Seq<BlockView>)
    requires
        ev is ObservationAdded,
    ensures
        ({
            let obs = ev->ObservationAdded_observation@;
            let old_msgs = st.messages;
            let r = handled(st, ev, blocks).messages;
            let limit: int = if obs.tool_name == "terminal_exec"@ || obs.tool_name
                == "terminal.exec"@ {
                MAX_TERMINAL_EXEC_DATA_CHARS as int
            } else {
                MAX_DATA_CHARS as int
            };
            let at = match last_index(old_msgs, key_pred(MessageKeyView::ToolCard(obs.call_id))) {
                Some(i) => i,
                None => old_msgs.len() as int,
            };
            let c = tool_of(r[at]);
            &&& 0 <= at < r.len()
            &&& key_matches(MessageKeyView::ToolCard(obs.call_id), r[at])
            &&& c.success == Some(obs.success)
            &&& c.summary == obs.summary
            &&& c.target_id == obs.resource_id
            &&& c.data_text.len() == (if obs.data_text.len() <= limit {
                obs.data_text.len() as int
            } else {
                limit
            })
            &&& c.data_text == obs.data_text.take(c.data_text.len() as int)
            &&& forall|j: int| 0 <= j < old_msgs.len() && j != at ==> r[j] == old_msgs[j]
            &&& match last_index(old_msgs, key_pred(MessageKeyView::ToolCard(obs.call_id))) {
                Some(i) => r.len() == old_msgs.len() && r[i].id == old_msgs[i].id && c.running
                    == tool_of(old_msgs[i]).running,
                None => r.len() == old_msgs.len() + 1 && !c.running && c.tool_name
                    == obs.tool_name,
            }
        }),
{
    let obs = ev->ObservationAdded_observation@;
    let p = key_pred(MessageKeyView::ToolCard(obs.call_id));
    assert(handled(st, ev, blocks) == observation_applied(st, obs));
    if let Some(i) = last_index(st.messages, p) {
        assert(is_last(st.messages, p, i));
    }
    let d = chars_at_most(obs.data_text, data_char_limit(obs.tool_name));
    if obs.data_text.len() <= data_char_limit(obs.tool_name) {
        assert(obs.data_text.take(obs.data_text.len() as int) =~= obs.data_text);
    } else {
        assert(d =~= obs.data_text.take(d.len() as int));
    }
}

/// Streamed answer text accumulates.  With no message streaming yet, a
/// first piece of the answer starts a streaming assistant message at the
/// end and a second piece grows that same message, whose text is then the
/// two pieces joined, as long as they fit the field limit together.
pub proof fn lemma_streamed_text_accumulates(
    st: TranscriptState,
    first: RuntimeEvent,
    second: RuntimeEvent,
    blocks1: Seq<BlockView>,
    blocks2: Seq<BlockView>,
)
    requires
        first is AssistantMessageDelta,
        second is AssistantMessageDelta,
        st.streaming_id is None,
        forall|j: int| 0 <= j < st.messages.len() ==> (#[trigger] st.messages[j]).id != st.next_id,
        byte_len(first->AssistantMessageDelta_delta@) + byte_len(
            second->AssistantMessageDelta_delta@,
        ) <= st.budget.max_field_bytes,
    ensures
        ({
            let s1 = handled(st, first, blocks1);
            let s2 = handled(s1, second, blocks2);
            let n = s2.messages.len();
            &&& n == s1.messages.len()
            &&& n > 0
            &&& s2.streaming_id == Some(s2.messages[n - 1].id)
            &&& s2.messages[n - 1].is_streaming
            &&& s2.messages[n - 1].role == ChatRole::Assistant
            &&& s2.messages[n - 1].content == first->AssistantMessageDelta_delta@
                + second->AssistantMessageDelta_delta@
        }),
{
    let d1 = first->AssistantMessageDelta_delta@;
    let d2 = second->AssistantMessageDelta_delta@;
    assert(byte_len(Seq::<char>::empty()) == 0);
    assert(Seq::<char>::empty() + d1 =~= d1);
    let f = finish_status(st);
    assert forall|j: int| 0 <= j < f.messages.len() implies (#[trigger] f.messages[j]).id
        != st.next_id by {
        if let Some(a) = st.active_status_id {
            st.messages.lemma_filter_contains_rev(crate::transcript_model::id_other_than(a), f.messages[j]);
        }
    }
    let s1 = handled(st, first, blocks1);
    assert(s1 == delta_applied(st, d1, false));
    let n = s1.messages.len();
    let nid = st.next_id;
    assert(s1.messages[n - 1].id == nid);
    assert(s1.streaming_id == Some(nid));
    assert(s1.active_status_id is None);
    assert(finish_status(s1) == s1);
    let p = key_pred(crate::transcript_model::MessageKeyView::Id(nid));
    assert forall|j: int| 0 <= j < n - 1 implies !p(#[trigger] s1.messages[j]) by {
        assert(s1.messages[j] == f.messages[j]);
    }
    assert(crate::transcript_model::is_first(s1.messages, p, n - 1));
    crate::transcript_model::lemma_first_index_is(s1.messages, p, n - 1);
    assert(handled(s1, second, blocks2) == delta_applied(s1, d2, false));
}

/// `r` shows the status line with `title` where `st` had its status in
/// progress (or at the end), and nothing else of `st` moved.
pub open spec fn status_shown(st: TranscriptState, r: TranscriptState, title: Seq<char>, is_done: bool) -> bool {
    let at = match found_by_id(st.messages, st.active_status_id) {
        Some(i) => i,
        None => st.messages.len() as int,
    };
    &&& 0 <= at < r.messages.len()
    &&& r.messages[at].variant == (VariantView::Status { title, is_done })
    &&& r.messages[at].is_streaming == !is_done
    &&& r.active_status_id == if is_done {
        None
    } else {
        Some(r.messages[at].id)
    }
    &&& forall|j: int| 0 <= j < st.messages.len() && j != at ==> r.messages[j] == st.messages[j]
    &&& r.messages.len() == if at < st.messages.len() {
        st.messages.len()
    } else {
        st.messages.len() + 1
    }
}

proof fn lemma_status_upserted(st: TranscriptState, title: Seq<char>, is_done: bool)
    requires
        st.active_status_id is None || found_by_id(st.messages, st.active_status_id) is Some,
    ensures
        status_shown(st, crate::transcript_model::status_upserted(st, title, is_done), title, is_done),
{
    if let Some(id) = st.active_status_id {
        let p = key_pred(MessageKeyView::Id(id));
        crate::transcript_model::lemma_first_index_found(st.messages, p);
        let i = found_by_id(st.messages, st.active_status_id)->0;
        assert(st.messages[i].id == id);
    }
}

/// A status event shows on the status line in progress, or on a new status
/// line at the end when none is in progress: the line gets the title and
/// whether it is done, and is in progress exactly while not done.  Nothing
/// else moves.  (The status in progress, when there is one, is a message of
/// the transcript.)
pub proof fn lemma_status_line_shown(st: TranscriptState, ev: RuntimeEvent, blocks: Seq<BlockView>)
    requires
        ev is Status,
        st.active_status_id is None || found_by_id(st.messages, st.active_status_id) is Some,
    ensures
        status_shown(st, handled(st, ev, blocks), ev->Status_title@, ev->Status_is_done),
{
    assert(handled(st, ev, blocks) == crate::transcript_model::status_upserted(
        st,
        ev->Status_title@,
        ev->Status_is_done,
    ));
    lemma_status_upserted(st, ev->Status_title@, ev->Status_is_done);
}

/// The sub-agent panel keeps at most its size: trimming leaves exactly
/// `min(len, MAX_ACTIVE_SUBAGENTS)` entries, all taken from the panel, and
/// drops a running sub-agent only when every entry left is running (finished
/// ones go first).
pub proof fn lemma_subagent_panel_trim(s: Seq<SubAgentView>)
    ensures
        trim_subagents(s).len() == if s.len() <= MAX_ACTIVE_SUBAGENTS {
            s.len() as int
        } else {
            MAX_ACTIVE_SUBAGENTS as int
        },
        forall|d: SubAgentView| #[trigger] trim_subagents(s).contains(d) ==> s.contains(d),
        forall|d: SubAgentView|
            s.contains(d) && d.running && !(#[trigger] trim_subagents(s).contains(d)) ==> forall|k: int|
                0 <= k < trim_subagents(s).len() ==> (#[trigger] trim_subagents(s)[k]).running,
    decreases s.len(),
{
    if s.len() > MAX_ACTIVE_SUBAGENTS {
        let p = crate::transcript_model::not_running();
        crate::transcript_model::lemma_first_index_found(s, p);
        let i = match first_index(s, p) {
            Some(i) => i,
            None => 0,
        };
        let r = s.remove(i);
        lemma_subagent_panel_trim(r);
        let t = trim_subagents(s);
        assert(t == trim_subagents(r));
        assert forall|d: SubAgentView| #[trigger] t.contains(d) implies s.contains(d) by {
            assert(trim_subagents(r).contains(d));
            let j = choose|j: int| 0 <= j < r.len() && r[j] == d;
            if j < i {
                assert(s[j] == d);
            } else {
                assert(s[j + 1] == d);
            }
        }
        assert forall|d: SubAgentView|
            s.contains(d) && d.running && !(#[trigger] t.contains(d)) implies forall|k: int|
                0 <= k < t.len() ==> (#[trigger] t[k]).running by {
            let j = choose|j: int| 0 <= j < s.len() && s[j] == d;
            if first_index(s, p) is None {
                assert forall|k: int| 0 <= k < t.len() implies (#[trigger] t[k]).running by {
                    assert(trim_subagents(r)[k] == t[k]);
                    assert(trim_subagents(r).contains(t[k]));
                    assert(r.contains(t[k]));
                    let m = choose|m: int| 0 <= m < r.len() && r[m] == t[k];
                    let sm = if m < i {
                        m
                    } else {
                        m + 1
                    };
                    assert(s[sm] == r[m]);
                    if !s[sm].running {
                        crate::transcript_model::lemma_first_index_is_some(s, p, sm);
                    }
                }
            } else {
                assert(!s[i].running);
                assert(j != i);
                if j < i {
                    assert(r[j] == d);
                } else {
                    assert(r[j - 1] == d);
                }
            }
        }
    }
}

proof fn lemma_inputs_without_call(inputs: Seq<(Seq<char>, Seq<char>)>, call_id: Seq<char>)
    ensures
        forall|j: int|
            0 <= j < inputs_without(inputs, call_id).len() ==> (#[trigger] inputs_without(
                inputs,
                call_id,
            )[j]).0 != call_id,
        inputs_without(inputs, call_id).len() <= inputs.len(),
{
    broadcast use vstd::seq_lib::group_filter_ensures;

    assert forall|j: int| 0 <= j < inputs_without(inputs, call_id).len() implies (
    #[trigger] inputs_without(inputs, call_id)[j]).0 != call_id by {
        assert(input_call_other_than(call_id)(inputs_without(inputs, call_id)[j]));
    }
}

/// The raw input of a tool call can be read back once cached: after a call
/// starts with an input that is not too large, looking the call up finds
/// exactly that input (as the newest entry, no older one shadowing it); an
/// input too large is not kept at all.  The cache never holds more than its
/// size, and once the call finishes its input is gone.
pub proof fn lemma_tool_input_read_back(st: TranscriptState, call_id: Seq<char>, json: Seq<char>, success: bool)
    requires
        st.tool_inputs.len() <= MAX_CACHED_TOOL_INPUTS,
    ensures
        ({
            let t = input_cached(st, call_id, json).tool_inputs;
            &&& t.len() <= MAX_CACHED_TOOL_INPUTS
            &&& byte_len(json) <= MAX_CACHED_TOOL_INPUT_BYTES ==> t.len() > 0 && first_index(
                t,
                pair_key_is(call_id),
            ) == Some(t.len() - 1) && t[t.len() - 1].1 == json
            &&& byte_len(json) > MAX_CACHED_TOOL_INPUT_BYTES ==> first_index(t, pair_key_is(call_id))
                is None
        }),
        first_index(tool_finished(st, call_id, success).tool_inputs, pair_key_is(call_id)) is None,
{
    let r = inputs_without(st.tool_inputs, call_id);
    lemma_inputs_without_call(st.tool_inputs, call_id);
    let key = pair_key_is(call_id);
    let t = input_cached(st, call_id, json).tool_inputs;
    if byte_len(json) > MAX_CACHED_TOOL_INPUT_BYTES {
        crate::transcript_model::lemma_first_index_none(r, key);
    } else {
        let p = r.push((call_id, json));
        let off: int = if p.len() > MAX_CACHED_TOOL_INPUTS {
            p.len() - MAX_CACHED_TOOL_INPUTS
        } else {
            0
        };
        assert(t =~= p.skip(off));
        assert forall|j: int| 0 <= j < t.len() - 1 implies !key(#[trigger] t[j]) by {
            assert(t[j] == r[j + off]);
        }
        assert(t[t.len() - 1] == (call_id, json));
        assert(crate::transcript_model::is_first(t, key, t.len() - 1));
        crate::transcript_model::lemma_first_index_is(t, key, t.len() - 1);
    }
    crate::transcript_model::lemma_first_index_none(r, key);
}

} // verus!
