//! What the composer and session list show, computed from plain values:
//! session titles, compact agent labels, sub-agent states, model choices
//! and tool execution modes.
use vstd::prelude::*;

use crate::cards::SubAgentCardData;
use crate::message_text::{push_signed_decimal, signed_decimal};
use crate::settings::AiChatToolExecutionMode;
use crate::text::{is_blank, trim_spec};
use crate::transcript_model::{
    first_index, is_first, lemma_first_index_is, lemma_first_index_none,
};

verus! {

/// Session titles keep at most this many characters.
pub const MAX_TITLE_CHARS: usize = 40;

pub open spec fn newline_at() -> spec_fn(char) -> bool {
    |c: char| c == '\n'
}

/// The first line of a text that is not blank, trimmed (empty when there is
/// none).
pub open spec fn first_filled_line(s: Seq<char>) -> Seq<char>
    decreases s.len(),
{
    let k = match first_index(s, newline_at()) {
        Some(k) => k,
        None => s.len() as int,
    };
    if !is_blank(s.take(k)) {
        trim_spec(s.take(k))
    } else if k >= s.len() {
        Seq::empty()
    } else {
        proof {
            crate::transcript_model::lemma_first_index_found(s, newline_at());
        }
        first_filled_line(s.skip(k + 1))
    }
}

/// The title a new session gets from its first message: its first filled
/// line, cut to 40 characters with an ellipsis; `fallback` when the
/// message has no filled line.
pub open spec fn session_title(text: Seq<char>, fallback: Seq<char>) -> Seq<char> {
    let line = first_filled_line(text);
    if line.len() == 0 {
        fallback
    } else if line.len() <= MAX_TITLE_CHARS {
        line
    } else {
        line.take(MAX_TITLE_CHARS as int).push('…')
    }
}

/// The first filled line of a text is empty exactly when the text is
/// blank; otherwise it is the trimmed line that starts after the text's
/// leading blank lines.
pub proof fn lemma_first_filled_line(s: Seq<char>)
    ensures
        is_blank(s) <==> first_filled_line(s).len() == 0,
        !is_blank(s) ==> exists|a: int, e: int|
            #![trigger s.subrange(a, e)]
            0 <= a <= e <= s.len() && (a == 0 || s[a - 1] == '\n') && (e == s.len() || s[e]
                == '\n') && (forall|j: int| a <= j < e ==> s[j] != '\n') && is_blank(s.take(a))
                && first_filled_line(s) == trim_spec(s.subrange(a, e)),
    decreases s.len(),
{
    let p = newline_at();
    crate::transcript_model::lemma_first_index_found(s, p);
    let k = match first_index(s, p) {
        Some(k) => k,
        None => s.len() as int,
    };
    let line = s.take(k);
    assert forall|j: int| 0 <= j < k implies s[j] != '\n' by {
        if first_index(s, p) is None && s[j] == '\n' {
            crate::transcript_model::lemma_first_index_is_some(s, p, j);
        }
    }
    if !is_blank(line) {
        let i = choose|i: int| 0 <= i < line.len() && !crate::text::is_ws(#[trigger] line[i]);
        crate::text::lemma_trim_keeps_non_ws(line, i);
        assert(!crate::text::is_ws(s[i]));
        assert(s.take(0) =~= Seq::<char>::empty());
        assert(s.subrange(0, k) =~= line);
    } else if k >= s.len() {
        assert(line =~= s);
    } else {
        let rest = s.skip(k + 1);
        lemma_first_filled_line(rest);
        assert(crate::text::is_ws(s[k]));
        if is_blank(rest) {
            assert forall|j: int| 0 <= j < s.len() implies crate::text::is_ws(#[trigger] s[j]) by {
                if j < k {
                    assert(line[j] == s[j]);
                } else if j > k {
                    assert(rest[j - k - 1] == s[j]);
                }
            }
        } else {
            assert(!is_blank(s)) by {
                let j = choose|j: int| 0 <= j < rest.len() && !crate::text::is_ws(#[trigger] rest[j]);
                assert(rest[j] == s[j + k + 1]);
            }
            let (a, e) = choose|a: int, e: int|
                #![trigger rest.subrange(a, e)]
                0 <= a <= e <= rest.len() && (a == 0 || rest[a - 1] == '\n') && (e == rest.len()
                    || rest[e] == '\n') && (forall|j: int| a <= j < e ==> rest[j] != '\n')
                    && is_blank(rest.take(a)) && first_filled_line(rest) == trim_spec(
                    rest.subrange(a, e),
                );
            let a2 = a + k + 1;
            let e2 = e + k + 1;
            assert(rest.subrange(a, e) =~= s.subrange(a2, e2));
            if a == 0 {
                assert(s[a2 - 1] == '\n');
            } else {
                assert(rest[a - 1] == s[a2 - 1]);
            }
            if e < rest.len() {
                assert(rest[e] == s[e2]);
            }
            assert forall|j: int| a2 <= j < e2 implies s[j] != '\n' by {
                assert(rest[j - k - 1] == s[j]);
            }
            assert forall|j: int| 0 <= j < s.take(a2).len() implies crate::text::is_ws(
                #[trigger] s.take(a2)[j],
            ) by {
                if j < k {
                    assert(line[j] == s[j]);
                } else if j > k {
                    assert(rest.take(a)[j - k - 1] == s[j]);
                }
            }
        }
    }
}

/// The title a message gives a new session is the fallback exactly when
/// the message is blank, and otherwise a non-empty text of at most 40
/// characters, plus an ellipsis when the line was cut.
pub proof fn lemma_session_title(text: Seq<char>, fallback: Seq<char>)
    ensures
        is_blank(text) ==> session_title(text, fallback) == fallback,
        !is_blank(text) ==> 0 < session_title(text, fallback).len() <= MAX_TITLE_CHARS + 1,
{
    lemma_first_filled_line(text);
}

fn first_filled_line_exec(text: &str) -> (r: &str)
    ensures
        r@ == first_filled_line(text@),
{
    let ghost s0 = text@;
    let n = text.unicode_len();
    let mut start: usize = 0;
    proof {
        assert(s0.skip(0) =~= s0);
    }
    loop
        invariant
            s0 == text@,
            n == s0.len(),
            start <= n,
            first_filled_line(s0.skip(start as int)) == first_filled_line(s0),
        decreases n - start,
    {
        let ghost s = s0.skip(start as int);
        let mut k: usize = start;
        while k < n && text.get_char(k) != '\n'
            invariant
                s0 == text@,
                s == s0.skip(start as int),
                n == s0.len(),
                start <= k <= n,
                forall|m: int| 0 <= m < k - start ==> !newline_at()(#[trigger] s[m]),
            decreases n - k,
        {
            k = k + 1;
        }
        let ghost kk = (k - start) as int;
        proof {
            if k < n {
                assert(is_first(s, newline_at(), kk));
                lemma_first_index_is(s, newline_at(), kk);
            } else {
                lemma_first_index_none(s, newline_at());
            }
            assert(s.take(kk) =~= s0.subrange(start as int, k as int));
        }
        let line = text.substring_char(start, k);
        if !crate::text::is_blank_str(line) {
            return crate::text::trim(line);
        }
        if k >= n {
            return text.substring_char(n, n);
        }
        proof {
            assert(s.skip(kk + 1) =~= s0.skip(k + 1));
        }
        start = k + 1;
    }
}

/// The title a new session gets from its first message (see `session_title`).
pub fn persistence_title_from_input(text: &str, fallback: &str) -> (r: String)
    ensures
        r@ == session_title(text@, fallback@),
{
    let line = first_filled_line_exec(text);
    let n = line.unicode_len();
    if n == 0 {
        return fallback.to_owned();
    }
    if n <= MAX_TITLE_CHARS {
        return line.to_owned();
    }
    let mut title = line.substring_char(0, MAX_TITLE_CHARS).to_owned();
    crate::text::push_char(&mut title, '…');
    title
}

/// A label cut to `max_chars` characters: longer ones keep their first
/// `max_chars - 1` characters and end in `...`.
pub open spec fn compact_label(label: Seq<char>, max_chars: int) -> Seq<char> {
    if label.len() <= max_chars {
        label
    } else {
        label.take(if max_chars > 0 {
            max_chars - 1
        } else {
            0
        }) + "..."@
    }
}

pub fn compact_agent_label(label: &str, max_chars: usize) -> (r: String)
    ensures
        r@ == compact_label(label@, max_chars as int),
{
    proof {
        reveal_strlit("...");
    }
    if label.unicode_len() <= max_chars {
        return label.to_owned();
    }
    let keep = if max_chars > 0 {
        max_chars - 1
    } else {
        0
    };
    let mut s = label.substring_char(0, keep).to_owned();
    s.append("...");
    s
}

/// How the composer lists a sub-agent: running, failed or completed.
pub fn subagent_status_for_composer(subagent: &SubAgentCardData) -> (r: &'static str)
    ensures
        r@ == (if subagent.running {
            "running"@
        } else if subagent.success == Some(false) {
            "failed"@
        } else {
            "completed"@
        }),
{
    if subagent.running {
        "running"
    } else if subagent.success == Some(false) {
        "failed"
    } else {
        "completed"
    }
}

/// The option id of a provider's model: `provider:<id>:<model>`.
pub fn provider_model_option_id(provider_id: i64, model: &str) -> (r: String)
    ensures
        r@ == "provider:"@ + signed_decimal(provider_id as int) + ":"@ + model@,
{
    proof {
        reveal_strlit(":");
    }
    let mut id = "provider:".to_owned();
    push_signed_decimal(&mut id, provider_id);
    id.append(":");
    id.append(model);
    id
}

/// The models a provider offers: its main model, then the others, without
/// empty names or repeats.
pub open spec fn provider_model_list(model: Seq<char>, models: Seq<Seq<char>>) -> Seq<Seq<char>>
    decreases models.len(),
{
    if models.len() == 0 {
        if model.len() > 0 {
            seq![model]
        } else {
            Seq::empty()
        }
    } else {
        let prev = provider_model_list(model, models.drop_last());
        let m = models.last();
        if m.len() > 0 && !prev.contains(m) {
            prev.push(m)
        } else {
            prev
        }
    }
}

/// The model list of a provider names each of its models once: no empty
/// name and no repeat, every name is the main model or one of the others,
/// every non-empty name given is listed, and a named main model comes
/// first.
pub proof fn lemma_provider_model_list(model: Seq<char>, models: Seq<Seq<char>>)
    ensures
        provider_model_list(model, models).no_duplicates(),
        forall|i: int|
            0 <= i < provider_model_list(model, models).len() ==> (#[trigger] provider_model_list(
                model,
                models,
            )[i]).len() > 0 && (provider_model_list(model, models)[i] == model || models.contains(
                provider_model_list(model, models)[i],
            )),
        forall|k: int|
            0 <= k < models.len() && (#[trigger] models[k]).len() > 0 ==> provider_model_list(
                model,
                models,
            ).contains(models[k]),
        model.len() > 0 ==> provider_model_list(model, models).len() > 0 && provider_model_list(
            model,
            models,
        )[0] == model,
    decreases models.len(),
{
    if models.len() > 0 {
        let init = models.drop_last();
        lemma_provider_model_list(model, init);
        let prev = provider_model_list(model, init);
        let m = models.last();
        let r = provider_model_list(model, models);
        assert forall|i: int| 0 <= i < r.len() implies (#[trigger] r[i]).len() > 0 && (r[i]
            == model || models.contains(r[i])) by {
            if i < prev.len() {
                assert(r[i] == prev[i]);
                if r[i] != model {
                    let k = choose|k: int| 0 <= k < init.len() && init[k] == prev[i];
                    assert(models[k] == init[k]);
                }
            } else {
                assert(models[models.len() - 1] == m);
            }
        }
        assert forall|k: int| 0 <= k < models.len() && (#[trigger] models[k]).len() > 0 implies r.contains(
            models[k],
        ) by {
            if k < models.len() - 1 {
                assert(init[k] == models[k]);
                let i = choose|i: int| 0 <= i < prev.len() && prev[i] == init[k];
                assert(r[i] == prev[i]);
            } else if prev.contains(m) {
                let i = choose|i: int| 0 <= i < prev.len() && prev[i] == m;
                assert(r[i] == prev[i]);
            } else {
                assert(r[prev.len() as int] == m);
            }
        }
        if m.len() > 0 && !prev.contains(m) {
            assert forall|a: int, b: int| 0 <= a < r.len() && 0 <= b < r.len() && a != b implies r[a]
                != r[b] by {
                if a < prev.len() && b < prev.len() {
                } else if a < prev.len() {
                    assert(prev.contains(r[a]));
                } else if b < prev.len() {
                    assert(prev.contains(r[b]));
                }
            }
        }
    }
}

pub open spec fn string_views(s: Seq<String>) -> Seq<Seq<char>> {
    s.map_values(|x: String| x@)
}

pub fn contains_str(list: &Vec<String>, s: &str) -> (r: bool)
    ensures
        r == string_views(list@).contains(s@),
{
    let n = list.len();
    let mut i: usize = 0;
    while i < n
        invariant
            n == list@.len(),
            i <= n,
            forall|j: int| 0 <= j < i ==> list@[j]@ != s@,
        decreases n - i,
    {
        if crate::text::str_eq(list[i].as_str(), s) {
            proof {
                assert(string_views(list@)[i as int] == s@);
            }
            return true;
        }
        i = i + 1;
    }
    proof {
        if string_views(list@).contains(s@) {
            let j = choose|j: int| 0 <= j < list@.len() && string_views(list@)[j] == s@;
            assert(list@[j]@ == s@);
        }
    }
    false
}

pub fn provider_models(model: &str, models: &Vec<String>) -> (r: Vec<String>)
    ensures
        string_views(r@) == provider_model_list(model@, string_views(models@)),
{
    let ghost ms = string_views(models@);
    let mut out: Vec<String> = Vec::new();
    if model.unicode_len() > 0 {
        out.push(model.to_owned());
    }
    proof {
        assert(ms.take(0) =~= Seq::<Seq<char>>::empty());
        assert(string_views(out@) =~= provider_model_list(model@, ms.take(0)));
    }
    let n = models.len();
    let mut i: usize = 0;
    while i < n
        invariant
            ms == string_views(models@),
            n == ms.len(),
            i <= n,
            string_views(out@) == provider_model_list(model@, ms.take(i as int)),
        decreases n - i,
    {
        let m = models[i].as_str();
        proof {
            assert(ms.take(i + 1).drop_last() =~= ms.take(i as int));
            assert(ms.take(i + 1).last() == m@);
        }
        let ghost prev = out@;
        if m.unicode_len() > 0 && !contains_str(&out, m) {
            out.push(m.to_owned());
            proof {
                assert(string_views(out@) =~= string_views(prev).push(m@));
            }
        }
        i = i + 1;
    }
    proof {
        assert(ms.take(n as int) =~= ms);
    }
    out
}

/// How the agent treats tool calls.
#[derive(Clone, Copy, Debug, PartialEq, Eq, Structural)]
pub enum ToolExecutionMode {
    Auto,
    ReadOnly,
    Manual,
}

/// The mode of a composer menu id; unknown ids mean automatic execution.
pub fn tool_execution_mode_from_id(id: &str) -> (r: ToolExecutionMode)
    ensures
        r == (if id@ == "readonly"@ {
            ToolExecutionMode::ReadOnly
        } else if id@ == "manual"@ {
            ToolExecutionMode::Manual
        } else {
            ToolExecutionMode::Auto
        }),
{
    if crate::text::str_eq(id, "readonly") {
        ToolExecutionMode::ReadOnly
    } else if crate::text::str_eq(id, "manual") {
        ToolExecutionMode::Manual
    } else {
        ToolExecutionMode::Auto
    }
}

pub open spec fn runtime_mode(mode: AiChatToolExecutionMode) -> ToolExecutionMode {
    match mode {
        AiChatToolExecutionMode::Auto => ToolExecutionMode::Auto,
        AiChatToolExecutionMode::ReadOnly => ToolExecutionMode::ReadOnly,
        AiChatToolExecutionMode::Manual => ToolExecutionMode::Manual,
    }
}

pub open spec fn settings_mode(mode: ToolExecutionMode) -> AiChatToolExecutionMode {
    match mode {
        ToolExecutionMode::Auto => AiChatToolExecutionMode::Auto,
        ToolExecutionMode::ReadOnly => AiChatToolExecutionMode::ReadOnly,
        ToolExecutionMode::Manual => AiChatToolExecutionMode::Manual,
    }
}

/// The runtime mode for a saved setting.
pub fn runtime_tool_execution_mode(mode: AiChatToolExecutionMode) -> (r: ToolExecutionMode)
    ensures
        r == runtime_mode(mode),
{
    match mode {
        AiChatToolExecutionMode::Auto => ToolExecutionMode::Auto,
        AiChatToolExecutionMode::ReadOnly => ToolExecutionMode::ReadOnly,
        AiChatToolExecutionMode::Manual => ToolExecutionMode::Manual,
    }
}

/// The saved setting for a runtime mode.
pub fn settings_tool_execution_mode(mode: ToolExecutionMode) -> (r: AiChatToolExecutionMode)
    ensures
        r == settings_mode(mode),
{
    match mode {
        ToolExecutionMode::Auto => AiChatToolExecutionMode::Auto,
        ToolExecutionMode::ReadOnly => AiChatToolExecutionMode::ReadOnly,
        ToolExecutionMode::Manual => AiChatToolExecutionMode::Manual,
    }
}

/// Saving a mode and reading it back gives the same mode, both ways round.
pub proof fn lemma_tool_mode_round_trip(mode: ToolExecutionMode, saved: AiChatToolExecutionMode)
    ensures
        runtime_mode(settings_mode(mode)) == mode,
        settings_mode(runtime_mode(saved)) == saved,
{
}

pub open spec fn id_is(id: Seq<char>) -> spec_fn(Seq<char>) -> bool {
    |x: Seq<char>| x == id
}

/// The position of the first option with the given id.
pub fn find_option(option_ids: &Vec<String>, id: &str) -> (r: Option<usize>)
    ensures
        match r {
            Some(i) => first_index(string_views(option_ids@), id_is(id@)) == Some(i as int),
            None => first_index(string_views(option_ids@), id_is(id@)) is None,
        },
{
    let ghost sv = string_views(option_ids@);
    let n = option_ids.len();
    let mut i: usize = 0;
    while i < n
        invariant
            sv == string_views(option_ids@),
            n == sv.len(),
            i <= n,
            forall|j: int| 0 <= j < i ==> !id_is(id@)(#[trigger] sv[j]),
        decreases n - i,
    {
        if crate::text::str_eq(option_ids[i].as_str(), id) {
            proof {
                assert(is_first(sv, id_is(id@), i as int));
                lemma_first_index_is(sv, id_is(id@), i as int);
            }
            return Some(i);
        }
        i = i + 1;
    }
    proof {
        lemma_first_index_none(sv, id_is(id@));
    }
    None
}

pub open spec fn lookup(ids: Seq<Seq<char>>, id: Option<Seq<char>>) -> Option<int> {
    match id {
        Some(i) => first_index(ids, id_is(i)),
        None => None,
    }
}

pub open spec fn first_option(ids: Seq<Seq<char>>) -> Option<int> {
    if ids.len() > 0 {
        Some(0)
    } else {
        None
    }
}

fn lookup_exec(option_ids: &Vec<String>, id: Option<&str>) -> (r: Option<usize>)
    ensures
        match r {
            Some(i) => lookup(string_views(option_ids@), opt_str(id)) == Some(i as int),
            None => lookup(string_views(option_ids@), opt_str(id)) is None,
        },
{
    match id {
        Some(i) => find_option(option_ids, i),
        None => None,
    }
}

pub open spec fn opt_str(o: Option<&str>) -> Option<Seq<char>> {
    match o {
        Some(s) => Some(s@),
        None => None,
    }
}

pub open spec fn opt_index(o: Option<usize>) -> Option<int> {
    match o {
        Some(i) => Some(i as int),
        None => None,
    }
}

/// The model the panel starts with: the configured one when it is offered,
/// else the first offered model.
pub fn selected_model_from_config(selected_model_id: Option<&str>, option_ids: &Vec<String>) -> (r:
    Option<usize>)
    ensures
        opt_index(r) == (match lookup(string_views(option_ids@), opt_str(selected_model_id)) {
            Some(i) => Some(i),
            None => first_option(string_views(option_ids@)),
        }),
{
    match lookup_exec(option_ids, selected_model_id) {
        Some(i) => Some(i),
        None => if option_ids.len() > 0 {
            Some(0)
        } else {
            None
        },
    }
}

/// After the model list is refreshed: the previous choice when it is still
/// offered (also returned as retained), else the configured model, else the
/// first model.
pub fn refreshed_model_selection(
    previous_id: Option<&str>,
    selected_model_id: Option<&str>,
    option_ids: &Vec<String>,
) -> (r: (Option<usize>, Option<usize>))
    ensures
        opt_index(r.1) == lookup(string_views(option_ids@), opt_str(previous_id)),
        opt_index(r.0) == (match lookup(string_views(option_ids@), opt_str(previous_id)) {
            Some(i) => Some(i),
            None => match lookup(string_views(option_ids@), opt_str(selected_model_id)) {
                Some(i) => Some(i),
                None => first_option(string_views(option_ids@)),
            },
        }),
{
    let retained = lookup_exec(option_ids, previous_id);
    let selected = match retained {
        Some(i) => Some(i),
        None => match lookup_exec(option_ids, selected_model_id) {
            Some(i) => Some(i),
            None => if option_ids.len() > 0 {
                Some(0)
            } else {
                None
            },
        },
    };
    (selected, retained)
}

pub open spec fn is_true() -> spec_fn(bool) -> bool {
    |b: bool| b
}

/// The provider model selected at start: the default one, else the first.
pub fn selected_provider_model(is_default: &Vec<bool>) -> (r: Option<usize>)
    ensures
        opt_index(r) == (match first_index(is_default@, is_true()) {
            Some(i) => Some(i),
            None => if is_default@.len() > 0 {
                Some(0int)
            } else {
                None
            },
        }),
{
    let n = is_default.len();
    let mut i: usize = 0;
    while i < n
        invariant
            n == is_default@.len(),
            i <= n,
            forall|j: int| 0 <= j < i ==> !is_true()(#[trigger] is_default@[j]),
        decreases n - i,
    {
        if is_default[i] {
            proof {
                assert(is_first(is_default@, is_true(), i as int));
                lemma_first_index_is(is_default@, is_true(), i as int);
            }
            return Some(i);
        }
        i = i + 1;
    }
    proof {
        lemma_first_index_none(is_default@, is_true());
    }
    if n > 0 {
        Some(0)
    } else {
        None
    }
}

} // verus!
