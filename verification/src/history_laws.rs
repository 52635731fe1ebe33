//! Loading a session's history discards what the transcript held before:
//! the result depends on the budget, the resource labels and the history
//! alone, message ids aside.
use vstd::prelude::*;

use crate::cards::{is_protected, message_bytes, message_fields_truncated, messages_bytes, MessageView};
use crate::events::HistoryItem;
use crate::transcript_model::{
    cleared, enforced, evict, evict_step, eviction_of, history_applied, history_item, is_last,
    key_pred, last_index, lemma_first_unprotected_exists, lemma_last_index_is, lemma_victim_in_range,
    loaded, over_budget, truncate_all, victim, EvictionState, MessageKeyView, TranscriptState,
};

verus! {

/// A message with its id left aside.
pub open spec fn unnumbered(m: MessageView) -> MessageView {
    MessageView { id: 0, ..m }
}

/// Messages with their ids left aside.
pub open spec fn unnumbered_all(ms: Seq<MessageView>) -> Seq<MessageView> {
    ms.map_values(|m: MessageView| unnumbered(m))
}

/// Two transcripts that differ at most in their message ids and next id,
/// with no streaming message and no running status.
pub open spec fn alike(s1: TranscriptState, s2: TranscriptState) -> bool {
    &&& unnumbered_all(s1.messages) == unnumbered_all(s2.messages)
    &&& s1.streaming_id is None
    &&& s2.streaming_id is None
    &&& s1.active_status_id is None
    &&& s2.active_status_id is None
    &&& s1.plan == s2.plan
    &&& s1.subagents == s2.subagents
    &&& s1.resource_labels == s2.resource_labels
    &&& s1.tool_inputs == s2.tool_inputs
    &&& s1.terminal_events == s2.terminal_events
    &&& s1.budget == s2.budget
}

proof fn lemma_unnumbered_at(ms1: Seq<MessageView>, ms2: Seq<MessageView>)
    requires
        unnumbered_all(ms1) == unnumbered_all(ms2),
    ensures
        ms1.len() == ms2.len(),
        forall|i: int| 0 <= i < ms1.len() ==> unnumbered(#[trigger] ms1[i]) == unnumbered(ms2[i]),
{
    assert(unnumbered_all(ms1).len() == ms1.len());
    assert(unnumbered_all(ms2).len() == ms2.len());
    assert forall|i: int| 0 <= i < ms1.len() implies unnumbered(#[trigger] ms1[i]) == unnumbered(ms2[i]) by {
        assert(unnumbered_all(ms1)[i] == unnumbered_all(ms2)[i]);
    }
}

proof fn lemma_unnumbered_from_at(ms1: Seq<MessageView>, ms2: Seq<MessageView>)
    requires
        ms1.len() == ms2.len(),
        forall|i: int| 0 <= i < ms1.len() ==> unnumbered(#[trigger] ms1[i]) == unnumbered(ms2[i]),
    ensures
        unnumbered_all(ms1) == unnumbered_all(ms2),
{
    assert(unnumbered_all(ms1) =~= unnumbered_all(ms2));
}

/// A lookup by anything but the message id finds the same position.
proof fn lemma_key_lookup_agrees(ms1: Seq<MessageView>, ms2: Seq<MessageView>, k: MessageKeyView)
    requires
        unnumbered_all(ms1) == unnumbered_all(ms2),
        !(k is Id),
    ensures
        last_index(ms1, key_pred(k)) == last_index(ms2, key_pred(k)),
{
    lemma_unnumbered_at(ms1, ms2);
    let p = key_pred(k);
    assert forall|i: int| 0 <= i < ms1.len() implies #[trigger] p(ms1[i]) == p(ms2[i]) by {
        assert(unnumbered(ms1[i]) == unnumbered(ms2[i]));
        assert(ms1[i].variant == ms2[i].variant);
    }
    assert forall|i: int| 0 <= i < ms2.len() implies #[trigger] p(ms2[i]) == p(ms1[i]) by {
        assert(unnumbered(ms1[i]) == unnumbered(ms2[i]));
        assert(ms1[i].variant == ms2[i].variant);
    }
    match last_index(ms1, p) {
        Some(i) => {
            assert(is_last(ms1, p, i));
            assert(is_last(ms2, p, i));
            lemma_last_index_is(ms2, p, i);
        },
        None => {
            match last_index(ms2, p) {
                Some(j) => {
                    assert(is_last(ms2, p, j));
                    assert(is_last(ms1, p, j));
                    lemma_last_index_is(ms1, p, j);
                },
                None => {},
            }
        },
    }
}

proof fn lemma_bytes_agree(ms1: Seq<MessageView>, ms2: Seq<MessageView>)
    requires
        unnumbered_all(ms1) == unnumbered_all(ms2),
    ensures
        messages_bytes(ms1) == messages_bytes(ms2),
    decreases ms1.len(),
{
    lemma_unnumbered_at(ms1, ms2);
    if ms1.len() > 0 {
        let d1 = ms1.drop_last();
        let d2 = ms2.drop_last();
        assert forall|i: int| 0 <= i < d1.len() implies unnumbered(#[trigger] d1[i]) == unnumbered(d2[i]) by {
            assert(d1[i] == ms1[i] && d2[i] == ms2[i]);
        }
        lemma_unnumbered_from_at(d1, d2);
        lemma_bytes_agree(d1, d2);
        assert(unnumbered(ms1.last()) == unnumbered(ms2.last()));
        assert(message_bytes(ms1.last()) == message_bytes(ms2.last()));
    }
}

proof fn lemma_victim_agrees(ms1: Seq<MessageView>, ms2: Seq<MessageView>)
    requires
        unnumbered_all(ms1) == unnumbered_all(ms2),
        ms1.len() > 0,
    ensures
        victim(ms1, None, None) == victim(ms2, None, None),
{
    lemma_unnumbered_at(ms1, ms2);
    assert forall|i: int| 0 <= i < ms1.len() implies is_protected(#[trigger] ms1[i], None, None, None)
        == is_protected(ms2[i], None, None, None) by {
        assert(unnumbered(ms1[i]) == unnumbered(ms2[i]));
    }
    if exists|i: int| 0 <= i < ms1.len() && !is_protected(#[trigger] ms1[i], None, None, None) {
        let w = choose|i: int| 0 <= i < ms1.len() && !is_protected(#[trigger] ms1[i], None, None, None);
        lemma_first_unprotected_exists(ms1, None, None, w);
        lemma_first_unprotected_exists(ms2, None, None, w);
        let v1 = victim(ms1, None, None);
        let v2 = victim(ms2, None, None);
        assert(!is_protected(ms1[v1], None, None, None));
        assert(!is_protected(ms2[v2], None, None, None));
        if v1 < v2 {
            assert(is_protected(ms2[v1], None, None, None));
        }
        if v2 < v1 {
            assert(is_protected(ms1[v2], None, None, None));
        }
    } else {
        assert(!exists|i: int| 0 <= i < ms2.len() && !is_protected(#[trigger] ms2[i], None, None, None)) by {
            if exists|i: int| 0 <= i < ms2.len() && !is_protected(#[trigger] ms2[i], None, None, None) {
                let w = choose|i: int| 0 <= i < ms2.len() && !is_protected(#[trigger] ms2[i], None, None, None);
                assert(!is_protected(ms1[w], None, None, None));
            }
        }
    }
}

pub open spec fn alike_eviction(e1: EvictionState, e2: EvictionState) -> bool {
    &&& unnumbered_all(e1.messages) == unnumbered_all(e2.messages)
    &&& e1.streaming_id is None
    &&& e2.streaming_id is None
    &&& e1.active_status_id is None
    &&& e2.active_status_id is None
    &&& e1.tool_inputs == e2.tool_inputs
}

#[verifier::rlimit(80)]
proof fn lemma_evict_agrees(e1: EvictionState, e2: EvictionState, b: crate::transcript_model::TranscriptBudget)
    requires
        alike_eviction(e1, e2),
    ensures
        alike_eviction(evict(e1, b), evict(e2, b)),
    decreases e1.messages.len(),
{
    lemma_unnumbered_at(e1.messages, e2.messages);
    lemma_bytes_agree(e1.messages, e2.messages);
    if e1.messages.len() > 0 && over_budget(e1.messages, b) {
        assert(over_budget(e2.messages, b));
        lemma_victim_agrees(e1.messages, e2.messages);
        lemma_victim_in_range(e1.messages, None, None);
        let v = victim(e1.messages, None, None);
        let n1 = evict_step(e1);
        let n2 = evict_step(e2);
        let r1 = e1.messages.remove(v);
        let r2 = e2.messages.remove(v);
        assert forall|i: int| 0 <= i < r1.len() implies unnumbered(#[trigger] r1[i]) == unnumbered(r2[i]) by {
            if i < v {
                assert(r1[i] == e1.messages[i] && r2[i] == e2.messages[i]);
            } else {
                assert(r1[i] == e1.messages[i + 1] && r2[i] == e2.messages[i + 1]);
            }
        }
        lemma_unnumbered_from_at(r1, r2);
        assert(unnumbered(e1.messages[v]) == unnumbered(e2.messages[v]));
        assert(e1.messages[v].variant == e2.messages[v].variant);
        assert(alike_eviction(n1, n2));
        lemma_evict_agrees(n1, n2, b);
    } else {
        assert(!(e2.messages.len() > 0 && over_budget(e2.messages, b)));
    }
}

proof fn lemma_enforced_agrees(s1: TranscriptState, s2: TranscriptState)
    requires
        alike(s1, s2),
    ensures
        alike(enforced(s1), enforced(s2)),
{
    lemma_unnumbered_at(s1.messages, s2.messages);
    let max = s1.budget.max_field_bytes as int;
    let t1 = truncate_all(s1.messages, max);
    let t2 = truncate_all(s2.messages, max);
    assert forall|i: int| 0 <= i < t1.len() implies unnumbered(#[trigger] t1[i]) == unnumbered(t2[i]) by {
        assert(unnumbered(s1.messages[i]) == unnumbered(s2.messages[i]));
        assert(s1.messages[i].variant == s2.messages[i].variant);
        assert(s1.messages[i].content == s2.messages[i].content);
        assert(s1.messages[i].reasoning_content == s2.messages[i].reasoning_content);
        assert(message_fields_truncated(s1.messages[i], max).variant == message_fields_truncated(
            s2.messages[i],
            max,
        ).variant);
    }
    lemma_unnumbered_from_at(t1, t2);
    let e1 = eviction_of(TranscriptState { messages: t1, ..s1 });
    let e2 = eviction_of(TranscriptState { messages: t2, ..s2 });
    lemma_evict_agrees(e1, e2, s1.budget);
}

proof fn lemma_push_agrees(
    s1: TranscriptState,
    s2: TranscriptState,
    m1: MessageView,
    m2: MessageView,
)
    requires
        alike(s1, s2),
        unnumbered(m1) == unnumbered(m2),
    ensures
        unnumbered_all(s1.messages.push(m1)) == unnumbered_all(s2.messages.push(m2)),
{
    lemma_unnumbered_at(s1.messages, s2.messages);
    let p1 = s1.messages.push(m1);
    let p2 = s2.messages.push(m2);
    assert forall|i: int| 0 <= i < p1.len() implies unnumbered(#[trigger] p1[i]) == unnumbered(p2[i]) by {
        if i < s1.messages.len() {
            assert(p1[i] == s1.messages[i] && p2[i] == s2.messages[i]);
        }
    }
    lemma_unnumbered_from_at(p1, p2);
}

proof fn lemma_update_agrees(
    s1: TranscriptState,
    s2: TranscriptState,
    i: int,
    m1: MessageView,
    m2: MessageView,
)
    requires
        alike(s1, s2),
        0 <= i < s1.messages.len(),
        unnumbered(m1) == unnumbered(m2),
    ensures
        unnumbered_all(s1.messages.update(i, m1)) == unnumbered_all(s2.messages.update(i, m2)),
{
    lemma_unnumbered_at(s1.messages, s2.messages);
    let p1 = s1.messages.update(i, m1);
    let p2 = s2.messages.update(i, m2);
    assert forall|j: int| 0 <= j < p1.len() implies unnumbered(#[trigger] p1[j]) == unnumbered(p2[j]) by {
        if j != i {
            assert(p1[j] == s1.messages[j] && p2[j] == s2.messages[j]);
        }
    }
    lemma_unnumbered_from_at(p1, p2);
}

/// One history entry keeps two alike transcripts alike.
#[verifier::rlimit(60)]
proof fn lemma_history_item_agrees(s1: TranscriptState, s2: TranscriptState, item: HistoryItem)
    requires
        alike(s1, s2),
    ensures
        alike(history_item(s1, item), history_item(s2, item)),
{
    lemma_unnumbered_at(s1.messages, s2.messages);
    match item {
        HistoryItem::User { text, image_count, images_text } => {
            let t = if image_count > 0 {
                images_text@
            } else {
                text@
            };
            let a = crate::transcript_model::user_pushed(s1, t);
            let b = crate::transcript_model::user_pushed(s2, t);
            lemma_push_agrees(s1, s2, a.messages.last(), b.messages.last());
            assert(a.messages == s1.messages.push(a.messages.last()));
            assert(b.messages == s2.messages.push(b.messages.last()));
            lemma_enforced_agrees(a, b);
        },
        HistoryItem::Assistant(text) => {
            let a = history_item(s1, item);
            let b = history_item(s2, item);
            lemma_push_agrees(s1, s2, a.messages.last(), b.messages.last());
            assert(a.messages == s1.messages.push(a.messages.last()));
            assert(b.messages == s2.messages.push(b.messages.last()));
        },
        HistoryItem::AssistantWithReasoning { text, reasoning } => {
            let a = history_item(s1, item);
            let b = history_item(s2, item);
            lemma_push_agrees(s1, s2, a.messages.last(), b.messages.last());
            assert(a.messages == s1.messages.push(a.messages.last()));
            assert(b.messages == s2.messages.push(b.messages.last()));
        },
        HistoryItem::System(text) => {
            let a = crate::transcript_model::system_pushed(s1, text@);
            let b = crate::transcript_model::system_pushed(s2, text@);
            lemma_push_agrees(s1, s2, a.messages.last(), b.messages.last());
            assert(a.messages == s1.messages.push(a.messages.last()));
            assert(b.messages == s2.messages.push(b.messages.last()));
            lemma_enforced_agrees(a, b);
        },
        HistoryItem::ContextSummary(text) => {
            let a = crate::transcript_model::system_pushed(s1, text@);
            let b = crate::transcript_model::system_pushed(s2, text@);
            lemma_push_agrees(s1, s2, a.messages.last(), b.messages.last());
            assert(a.messages == s1.messages.push(a.messages.last()));
            assert(b.messages == s2.messages.push(b.messages.last()));
            lemma_enforced_agrees(a, b);
        },
        HistoryItem::ToolCall { call_id, tool_name, input, arguments_json, arguments } => {
            let a = history_item(s1, item);
            let b = history_item(s2, item);
            lemma_push_agrees(s1, s2, a.messages.last(), b.messages.last());
            assert(a.messages == s1.messages.push(a.messages.last()));
            assert(b.messages == s2.messages.push(b.messages.last()));
        },
        HistoryItem::Observation(obs) => {
            lemma_observation_agrees(s1, s2, obs);
        },
    }
}

#[verifier::rlimit(60)]
proof fn lemma_observation_agrees(s1: TranscriptState, s2: TranscriptState, obs: crate::events::ToolObservation)
    requires
        alike(s1, s2),
    ensures
        alike(
            history_item(s1, HistoryItem::Observation(obs)),
            history_item(s2, HistoryItem::Observation(obs)),
        ),
{
    lemma_unnumbered_at(s1.messages, s2.messages);
    let sub_key = MessageKeyView::SubAgentCard(obs.call_id@);
    let tool_key = MessageKeyView::ToolCard(obs.call_id@);
    lemma_key_lookup_agrees(s1.messages, s2.messages, sub_key);
    lemma_key_lookup_agrees(s1.messages, s2.messages, tool_key);
    if let Some(i) = last_index(s1.messages, key_pred(sub_key)) {
        assert(is_last(s1.messages, key_pred(sub_key), i));
        assert(unnumbered(s1.messages[i]) == unnumbered(s2.messages[i]));
    }
    if let Some(i) = last_index(s1.messages, key_pred(tool_key)) {
        assert(is_last(s1.messages, key_pred(tool_key), i));
        assert(unnumbered(s1.messages[i]) == unnumbered(s2.messages[i]));
    }
    let found = crate::transcript_model::find_subagent(s1, obs.call_id@);
    assert(found == crate::transcript_model::find_subagent(s2, obs.call_id@));
    if obs.tool_name@ == crate::transcript_model::delegate_tool() && found is Some {
        let d0 = found->0;
        let summary = crate::transcript_model::history_summary(obs@);
        let d = crate::cards::SubAgentView {
            running: false,
            success: Some(obs.success),
            summary: if summary.len() == 0 {
                d0.summary
            } else {
                summary
            },
            ..d0
        };
        let p1 = crate::transcript_model::panel_upserted(s1, d);
        let p2 = crate::transcript_model::panel_upserted(s2, d);
        assert(alike(p1, p2));
        match last_index(p1.messages, key_pred(sub_key)) {
            Some(i) => {
                lemma_update_agrees(
                    p1,
                    p2,
                    i,
                    MessageView {
                        variant: crate::cards::VariantView::Card(crate::cards::CardView::SubAgent(d)),
                        ..p1.messages[i]
                    },
                    MessageView {
                        variant: crate::cards::VariantView::Card(crate::cards::CardView::SubAgent(d)),
                        ..p2.messages[i]
                    },
                );
            },
            None => {},
        }
    } else {
        let o1 = crate::transcript_model::observation_applied(s1, obs@);
        let o2 = crate::transcript_model::observation_applied(s2, obs@);
        match last_index(s1.messages, key_pred(tool_key)) {
            Some(i) => {
                let m1 = s1.messages[i];
                let m2 = s2.messages[i];
                assert(m1.variant == m2.variant);
                lemma_update_agrees(s1, s2, i, o1.messages[i], o2.messages[i]);
                assert(o1.messages == s1.messages.update(i, o1.messages[i]));
                assert(o2.messages == s2.messages.update(i, o2.messages[i]));
            },
            None => {
                lemma_push_agrees(s1, s2, o1.messages.last(), o2.messages.last());
                assert(o1.messages == s1.messages.push(o1.messages.last()));
                assert(o2.messages == s2.messages.push(o2.messages.last()));
            },
        }
        assert(alike(o1, o2));
        lemma_unnumbered_at(o1.messages, o2.messages);
        lemma_key_lookup_agrees(o1.messages, o2.messages, tool_key);
        let f1 = crate::transcript_model::tool_finished(o1, obs.call_id@, obs.success);
        let f2 = crate::transcript_model::tool_finished(o2, obs.call_id@, obs.success);
        match last_index(o1.messages, key_pred(tool_key)) {
            Some(i) => {
                assert(is_last(o1.messages, key_pred(tool_key), i));
                assert(unnumbered(o1.messages[i]) == unnumbered(o2.messages[i]));
                assert(o1.messages[i].variant == o2.messages[i].variant);
                let q1 = TranscriptState {
                    tool_inputs: crate::transcript_model::inputs_without(o1.tool_inputs, obs.call_id@),
                    ..o1
                };
                let q2 = TranscriptState {
                    tool_inputs: crate::transcript_model::inputs_without(o2.tool_inputs, obs.call_id@),
                    ..o2
                };
                lemma_update_agrees(q1, q2, i, f1.messages[i], f2.messages[i]);
                assert(f1.messages == q1.messages.update(i, f1.messages[i]));
                assert(f2.messages == q2.messages.update(i, f2.messages[i]));
            },
            None => {},
        }
    }
}

/// Replaying a history keeps two alike transcripts alike.
proof fn lemma_history_agrees(s1: TranscriptState, s2: TranscriptState, items: Seq<HistoryItem>)
    requires
        alike(s1, s2),
    ensures
        alike(history_applied(s1, items), history_applied(s2, items)),
    decreases items.len(),
{
    if items.len() > 0 {
        lemma_history_agrees(s1, s2, items.drop_last());
        let h1 = history_applied(s1, items.drop_last());
        let h2 = history_applied(s2, items.drop_last());
        lemma_history_item_agrees(h1, h2, items.last());
        lemma_enforced_agrees(history_item(h1, items.last()), history_item(h2, items.last()));
    }
}

/// Loading a history discards what the transcript held before: two
/// transcripts with the same budget and resource labels, whatever their
/// messages, ids, plans, sub-agents and streaming or status state, load the
/// same messages (ids aside), the same sub-agents, tool inputs and terminal
/// events, and the plan exactly when one is given.
pub proof fn lemma_load_history_ignores_earlier_state(
    st1: TranscriptState,
    st2: TranscriptState,
    items: Seq<HistoryItem>,
    plan: Option<crate::events::Plan>,
)
    requires
        st1.budget == st2.budget,
        st1.resource_labels == st2.resource_labels,
    ensures
        unnumbered_all(loaded(st1, items, plan).messages) == unnumbered_all(loaded(st2, items, plan).messages),
        loaded(st1, items, plan).subagents == loaded(st2, items, plan).subagents,
        loaded(st1, items, plan).plan == loaded(st2, items, plan).plan,
        loaded(st1, items, plan).plan is Some == plan is Some,
{
    let c1 = cleared(st1);
    let c2 = cleared(st2);
    assert(unnumbered_all(c1.messages) =~= unnumbered_all(c2.messages));
    assert(alike(c1, c2));
    lemma_history_agrees(c1, c2, items);
    let h1 = history_applied(c1, items);
    let h2 = history_applied(c2, items);
    let p1 = match plan {
        Some(p) => TranscriptState { plan: Some(crate::events::plan_card(p)), ..h1 },
        None => h1,
    };
    let p2 = match plan {
        Some(p) => TranscriptState { plan: Some(crate::events::plan_card(p)), ..h2 },
        None => h2,
    };
    assert(alike(p1, p2));
    lemma_enforced_agrees(p1, p2);
    lemma_history_keeps_no_plan(c1, items);
    crate::transcript_laws::lemma_enforced_within_budget(p1);
    lemma_enforced_keeps_plan(p1);
}

proof fn lemma_enforced_keeps_plan(st: TranscriptState)
    ensures
        enforced(st).plan == st.plan,
{
}

/// Replaying a history sets no plan.
proof fn lemma_history_keeps_no_plan(st: TranscriptState, items: Seq<HistoryItem>)
    requires
        st.plan is None,
    ensures
        history_applied(st, items).plan is None,
    decreases items.len(),
{
    if items.len() > 0 {
        lemma_history_keeps_no_plan(st, items.drop_last());
        lemma_history_item_keeps_plan(history_applied(st, items.drop_last()), items.last());
        lemma_enforced_keeps_plan(history_item(history_applied(st, items.drop_last()), items.last()));
    }
}

#[verifier::rlimit(40)]
proof fn lemma_history_item_keeps_plan(st: TranscriptState, item: HistoryItem)
    ensures
        history_item(st, item).plan == st.plan,
{
    match item {
        HistoryItem::User { text, image_count, images_text } => {
            lemma_enforced_keeps_plan(
                crate::transcript_model::user_pushed(
                    st,
                    if image_count > 0 {
                        images_text@
                    } else {
                        text@
                    },
                ),
            );
        },
        HistoryItem::System(text) => {
            lemma_enforced_keeps_plan(crate::transcript_model::system_pushed(st, text@));
        },
        HistoryItem::ContextSummary(text) => {
            lemma_enforced_keeps_plan(crate::transcript_model::system_pushed(st, text@));
        },
        _ => {},
    }
}

} // verus!
