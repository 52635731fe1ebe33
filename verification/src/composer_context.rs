//! What the input box shows about the session's resources: the default
//! target and its scopes, a summary of the pool, one filter per resource type,
//! the plan steps and the sub-agents.
use vstd::prelude::*;

use crate::cards::SubAgentCardData;
use crate::composer::{string_views, subagent_status_for_composer, ToolExecutionMode};
use crate::events::{PlanCardData, PlanStepData, PlanStepView};
use crate::resources::{
    current_of, kind_icon, kind_icon_text, kind_name, resource_views, scope_views, PoolView,
    ResourceContext, ResourceRef, ResourceScope, ResourceView, ScopeView,
};
use crate::text_order::{lemma_lex_irreflexive, lemma_lex_total, lemma_lex_transitive, lex_lt, str_lt};

verus! {

/// The texts of the input box that depend on the user's language.
pub struct ContextLabels {
    pub target: String,
    pub no_default_target: String,
    pub all: String,
    pub auto: String,
    pub readonly: String,
    pub manual: String,
}

pub open spec fn mode_label_text(mode: ToolExecutionMode, labels: ContextLabels) -> Seq<char> {
    match mode {
        ToolExecutionMode::Auto => labels.auto@,
        ToolExecutionMode::ReadOnly => labels.readonly@,
        ToolExecutionMode::Manual => labels.manual@,
    }
}

/// The label of a tool execution mode.
pub fn tool_execution_mode_label(mode: ToolExecutionMode, labels: &ContextLabels) -> (r: String)
    ensures
        r@ == mode_label_text(mode, *labels),
{
    match mode {
        ToolExecutionMode::Auto => labels.auto.clone(),
        ToolExecutionMode::ReadOnly => labels.readonly.clone(),
        ToolExecutionMode::Manual => labels.manual.clone(),
    }
}

/// The resource the agent acts on by default, as the input box shows it.
pub struct ComposerTarget {
    pub id: String,
    pub label: String,
    pub icon: String,
    pub kind: String,
    pub detail: String,
}

pub struct TargetView {
    pub id: Seq<char>,
    pub label: Seq<char>,
    pub icon: Seq<char>,
    pub kind: Seq<char>,
    pub detail: Seq<char>,
}

impl View for ComposerTarget {
    type V = TargetView;

    open spec fn view(&self) -> TargetView {
        TargetView {
            id: self.id@,
            label: self.label@,
            icon: self.icon@,
            kind: self.kind@,
            detail: self.detail@,
        }
    }
}

pub open spec fn target_of(r: ResourceView) -> TargetView {
    TargetView {
        id: r.id,
        label: r.label,
        icon: kind_icon_text(r.kind),
        kind: kind_name(r.kind),
        detail: kind_name(r.kind) + " · "@ + r.id,
    }
}

/// The target form of a resource: its id, label, badge and kind, and a detail
/// line "kind · id".
pub fn target_from_resource(r: &ResourceRef) -> (t: ComposerTarget)
    ensures
        t@ == target_of(r@),
{
    let kind = r.kind.as_str();
    let mut detail = kind.to_owned();
    detail.append(" · ");
    detail.append(r.id.as_str());
    ComposerTarget {
        id: r.id.clone(),
        label: r.label.clone(),
        icon: kind_icon(&r.kind).to_owned(),
        kind: kind.to_owned(),
        detail,
    }
}

/// One scope line of the target.
pub struct ComposerScope {
    pub key: String,
    pub label: String,
    pub value: String,
}

impl View for ComposerScope {
    type V = ScopeView;

    open spec fn view(&self) -> ScopeView {
        ScopeView { key: self.key@, label: self.label@, value: self.value@ }
    }
}

pub open spec fn composer_scope_views(s: Seq<ComposerScope>) -> Seq<ScopeView> {
    s.map_values(|x: ComposerScope| x@)
}

fn composer_scopes(scopes: &Vec<ResourceScope>) -> (r: Vec<ComposerScope>)
    ensures
        composer_scope_views(r@) == scope_views(scopes@),
{
    let mut out: Vec<ComposerScope> = Vec::new();
    let n = scopes.len();
    let mut i: usize = 0;
    while i < n
        invariant
            n == scopes@.len(),
            i <= n,
            composer_scope_views(out@) =~= scope_views(scopes@).take(i as int),
        decreases n - i,
    {
        let s = &scopes[i];
        out.push(ComposerScope { key: s.key.clone(), label: s.label.clone(), value: s.value.clone() });
        proof {
            assert(scope_views(scopes@).take(i + 1) =~= scope_views(scopes@).take(i as int).push(
                scopes@[i as int]@,
            ));
        }
        i = i + 1;
    }
    proof {
        assert(scope_views(scopes@).take(n as int) =~= scope_views(scopes@));
    }
    out
}

/// The default target of the pool and the pool's size.
pub struct ComposerResourcePoolSummary {
    pub default_target_id: Option<String>,
    pub default_label: String,
    pub total_resources: usize,
}

pub struct PoolSummaryView {
    pub default_target_id: Option<Seq<char>>,
    pub default_label: Seq<char>,
    pub total_resources: nat,
}

impl View for ComposerResourcePoolSummary {
    type V = PoolSummaryView;

    open spec fn view(&self) -> PoolSummaryView {
        PoolSummaryView {
            default_target_id: crate::cards::opt_view(self.default_target_id),
            default_label: self.default_label@,
            total_resources: self.total_resources as nat,
        }
    }
}

pub open spec fn pool_summary_of(pool: PoolView, no_default: Seq<char>) -> PoolSummaryView {
    match current_of(pool) {
        Some(i) => PoolSummaryView {
            default_target_id: Some(pool.resources[i].id),
            default_label: pool.resources[i].label,
            total_resources: pool.resources.len(),
        },
        None => PoolSummaryView {
            default_target_id: None,
            default_label: no_default,
            total_resources: pool.resources.len(),
        },
    }
}

/// The pool summary counts the pool's resources and names the default
/// target, with the label of the first pool resource carrying its id,
/// exactly when the target is in the pool; otherwise it shows the "no
/// default target" text.
pub proof fn lemma_pool_summary_names_target(pool: PoolView, no_default: Seq<char>)
    ensures
        pool_summary_of(pool, no_default).total_resources == pool.resources.len(),
        (pool.current matches Some(c) && exists|k: int|
            0 <= k < pool.resources.len() && (#[trigger] pool.resources[k]).id == c) <==> (
        pool_summary_of(pool, no_default).default_target_id is Some),
        pool_summary_of(pool, no_default).default_target_id is Some ==> pool_summary_of(
            pool,
            no_default,
        ).default_target_id == pool.current && exists|k: int|
            0 <= k < pool.resources.len() && (#[trigger] pool.resources[k]).id == pool.current->0
                && pool_summary_of(pool, no_default).default_label == pool.resources[k].label,
        pool_summary_of(pool, no_default).default_target_id is None ==> pool_summary_of(
            pool,
            no_default,
        ).default_label == no_default,
{
    if let Some(c) = pool.current {
        let p = crate::resources::res_id_is(c);
        crate::transcript_model::lemma_first_index_found(pool.resources, p);
        if exists|k: int| 0 <= k < pool.resources.len() && (#[trigger] pool.resources[k]).id == c {
            let k = choose|k: int| 0 <= k < pool.resources.len() && (#[trigger] pool.resources[k]).id == c;
            assert(p(pool.resources[k]));
            crate::transcript_model::lemma_first_index_is_some(pool.resources, p, k);
        }
        if let Some(i) = current_of(pool) {
            assert(pool.resources[i].id == c);
        }
    }
}

/// The pool summary: the default target's id and label (or the "no default
/// target" text) and the number of resources in the pool.
pub fn resource_pool_summary(resources: &ResourceContext, labels: &ContextLabels) -> (r:
    ComposerResourcePoolSummary)
    ensures
        r@ == pool_summary_of(resources@, labels.no_default_target@),
{
    match resources.current_resource() {
        Some(current) => ComposerResourcePoolSummary {
            default_target_id: Some(current.id.clone()),
            default_label: current.label.clone(),
            total_resources: resources.resources.len(),
        },
        None => ComposerResourcePoolSummary {
            default_target_id: None,
            default_label: labels.no_default_target.clone(),
            total_resources: resources.resources.len(),
        },
    }
}

/// One resource type filter of the input box.
pub struct ComposerResourceTypeFilter {
    pub id: String,
    pub label: String,
    pub count: usize,
    pub selected: bool,
}

pub struct FilterView {
    pub id: Seq<char>,
    pub label: Seq<char>,
    pub count: nat,
    pub selected: bool,
}

impl View for ComposerResourceTypeFilter {
    type V = FilterView;

    open spec fn view(&self) -> FilterView {
        FilterView {
            id: self.id@,
            label: self.label@,
            count: self.count as nat,
            selected: self.selected,
        }
    }
}

pub open spec fn filter_views(s: Seq<ComposerResourceTypeFilter>) -> Seq<FilterView> {
    s.map_values(|x: ComposerResourceTypeFilter| x@)
}

/// What `str::to_uppercase` gives for a text.
pub uninterp spec fn upper_text(s: Seq<char>) -> Seq<char>;

/// `str::to_uppercase`: the text in upper case, as Unicode defines it. Its
/// result is a function of the text alone, named `upper_text`; the mapping
/// itself is not written out here.
#[verifier::external_body]
fn to_uppercase(s: &str) -> (r: String)
    ensures
        r@ == upper_text(s@),
{
    s.to_uppercase()
}

/// How many resources have the kind named `name`.
pub open spec fn kind_count(rs: Seq<ResourceView>, name: Seq<char>) -> nat
    decreases rs.len(),
{
    if rs.len() == 0 {
        0
    } else {
        kind_count(rs.drop_last(), name) + if kind_name(rs.last().kind) == name {
            1nat
        } else {
            0nat
        }
    }
}

pub open spec fn has_kind(rs: Seq<ResourceView>, name: Seq<char>) -> bool {
    exists|k: int| 0 <= k < rs.len() && kind_name(#[trigger] rs[k].kind) == name
}

/// `names` are the kind names of `rs`, each once, in the order of `String`.
pub open spec fn kinds_listed(names: Seq<Seq<char>>, rs: Seq<ResourceView>) -> bool {
    &&& forall|i: int, j: int| 0 <= i < j < names.len() ==> lex_lt(#[trigger] names[i], #[trigger] names[j])
    &&& forall|i: int| 0 <= i < names.len() ==> has_kind(rs, #[trigger] names[i])
    &&& forall|k: int| 0 <= k < rs.len() ==> names.contains(kind_name(#[trigger] rs[k].kind))
}

pub open spec fn filter_ids(s: Seq<FilterView>) -> Seq<Seq<char>> {
    s.map_values(|f: FilterView| f.id)
}

/// The type filters: "all" first, selected, counting every resource; then one
/// filter per kind in the order of the kind names, labelled in upper case,
/// counting the resources of that kind.
pub open spec fn type_filters_of(filters: Seq<FilterView>, rs: Seq<ResourceView>, all_label: Seq<char>) -> bool {
    &&& filters.len() >= 1
    &&& filters[0] == (FilterView { id: "all"@, label: all_label, count: rs.len(), selected: true })
    &&& kinds_listed(filter_ids(filters.skip(1)), rs)
    &&& forall|i: int|
        1 <= i < filters.len() ==> {
            &&& (#[trigger] filters[i]).label == upper_text(filters[i].id)
            &&& filters[i].count == kind_count(rs, filters[i].id)
            &&& !filters[i].selected
        }
}

proof fn lemma_kind_count_push(rs: Seq<ResourceView>, x: ResourceView, name: Seq<char>)
    ensures
        kind_count(rs.push(x), name) == kind_count(rs, name) + if kind_name(x.kind) == name {
            1nat
        } else {
            0nat
        },
{
    assert(rs.push(x).drop_last() =~= rs);
}

proof fn lemma_kind_count_bound(rs: Seq<ResourceView>, name: Seq<char>)
    ensures
        kind_count(rs, name) <= rs.len(),
    decreases rs.len(),
{
    if rs.len() > 0 {
        lemma_kind_count_bound(rs.drop_last(), name);
    }
}

proof fn lemma_kind_count_zero(rs: Seq<ResourceView>, name: Seq<char>)
    requires
        forall|k: int| 0 <= k < rs.len() ==> kind_name(#[trigger] rs[k].kind) != name,
    ensures
        kind_count(rs, name) == 0,
    decreases rs.len(),
{
    if rs.len() > 0 {
        let d = rs.drop_last();
        assert forall|k: int| 0 <= k < d.len() implies kind_name(#[trigger] d[k].kind) != name by {
            assert(d[k] == rs[k]);
        }
        lemma_kind_count_zero(d, name);
        assert(kind_name(rs[rs.len() - 1].kind) != name);
    }
}

pub open spec fn strictly_ordered(names: Seq<Seq<char>>) -> bool {
    forall|i: int, j: int| 0 <= i < j < names.len() ==> lex_lt(#[trigger] names[i], #[trigger] names[j])
}

proof fn lemma_ordered_tail(a: Seq<Seq<char>>)
    requires
        strictly_ordered(a),
        a.len() > 0,
    ensures
        strictly_ordered(a.drop_first()),
        forall|x: Seq<char>| #[trigger] a.drop_first().contains(x) <==> (a.contains(x) && x != a[0]),
{
    let t = a.drop_first();
    assert forall|i: int, j: int| 0 <= i < j < t.len() implies lex_lt(#[trigger] t[i], #[trigger] t[j]) by {
        assert(t[i] == a[i + 1] && t[j] == a[j + 1]);
    }
    assert forall|x: Seq<char>| #[trigger] t.contains(x) <==> (a.contains(x) && x != a[0]) by {
        if t.contains(x) {
            let i = choose|i: int| 0 <= i < t.len() && t[i] == x;
            assert(a[i + 1] == x);
            assert(lex_lt(a[0], a[i + 1]));
            lemma_lex_irreflexive(a[0]);
        }
        if a.contains(x) && x != a[0] {
            let i = choose|i: int| 0 <= i < a.len() && a[i] == x;
            assert(i > 0);
            assert(t[i - 1] == x);
        }
    }
}

proof fn lemma_ordered_unique(a: Seq<Seq<char>>, b: Seq<Seq<char>>)
    requires
        strictly_ordered(a),
        strictly_ordered(b),
        forall|x: Seq<char>|
            #![trigger a.contains(x)]
            #![trigger b.contains(x)]
            a.contains(x) <==> b.contains(x),
    ensures
        a == b,
    decreases a.len(),
{
    if a.len() == 0 {
        if b.len() > 0 {
            assert(b.contains(b[0]));
            assert(!a.contains(b[0]));
        }
        assert(a =~= b);
    } else if b.len() == 0 {
        assert(a.contains(a[0]));
    } else {
        assert(a.contains(a[0]) && b.contains(b[0]));
        assert(a.contains(b[0]) && b.contains(a[0]));
        let i = choose|i: int| 0 <= i < a.len() && a[i] == b[0];
        let j = choose|j: int| 0 <= j < b.len() && b[j] == a[0];
        if i > 0 && j > 0 {
            assert(lex_lt(a[0], a[i]));
            assert(lex_lt(b[0], b[j]));
            lemma_lex_total(a[0], b[0]);
        } else if i > 0 {
            assert(lex_lt(a[0], a[i]));
            assert(a[0] == b[0]);
            lemma_lex_irreflexive(a[0]);
        } else if j > 0 {
            assert(lex_lt(b[0], b[j]));
            assert(a[0] == b[0]);
            lemma_lex_irreflexive(b[0]);
        }
        assert(a[0] == b[0]);
        lemma_ordered_tail(a);
        lemma_ordered_tail(b);
        lemma_ordered_unique(a.drop_first(), b.drop_first());
        assert(a =~= seq![a[0]] + a.drop_first());
        assert(b =~= seq![b[0]] + b.drop_first());
    }
}

/// The kind list of a pool is unique: any two lists that name each kind of
/// the pool once, in the order of `String`, are the same list.
pub proof fn lemma_kinds_listed_unique(a: Seq<Seq<char>>, b: Seq<Seq<char>>, rs: Seq<ResourceView>)
    requires
        kinds_listed(a, rs),
        kinds_listed(b, rs),
    ensures
        a == b,
{
    assert forall|x: Seq<char>| a.contains(x) <==> b.contains(x) by {
        if a.contains(x) {
            let i = choose|i: int| 0 <= i < a.len() && a[i] == x;
            assert(has_kind(rs, a[i]));
            let k = choose|k: int| 0 <= k < rs.len() && kind_name(#[trigger] rs[k].kind) == a[i];
            assert(b.contains(kind_name(rs[k].kind)));
        }
        if b.contains(x) {
            let i = choose|i: int| 0 <= i < b.len() && b[i] == x;
            assert(has_kind(rs, b[i]));
            let k = choose|k: int| 0 <= k < rs.len() && kind_name(#[trigger] rs[k].kind) == b[i];
            assert(a.contains(kind_name(rs[k].kind)));
        }
    }
    lemma_ordered_unique(a, b);
}

/// The kind names of `rs` in the order of `String`, each with its count.
fn kind_table(rs: &Vec<ResourceRef>) -> (r: (Vec<String>, Vec<usize>))
    ensures
        kinds_listed(string_views(r.0@), resource_views(rs@)),
        r.1@.len() == r.0@.len(),
        forall|j: int|
            0 <= j < r.1@.len() ==> #[trigger] r.1@[j] == kind_count(resource_views(rs@), r.0@[j]@),
{
    let ghost rv = resource_views(rs@);
    let mut names: Vec<String> = Vec::new();
    let mut counts: Vec<usize> = Vec::new();
    proof {
        assert(rv.take(0) =~= Seq::<ResourceView>::empty());
        assert(string_views(names@) =~= Seq::<Seq<char>>::empty());
    }
    let n = rs.len();
    let mut i: usize = 0;
    while i < n
        invariant
            rv == resource_views(rs@),
            n == rv.len(),
            i <= n,
            kinds_listed(string_views(names@), rv.take(i as int)),
            counts@.len() == names@.len(),
            forall|j: int|
                0 <= j < counts@.len() ==> #[trigger] counts@[j] == kind_count(
                    rv.take(i as int),
                    names@[j]@,
                ),
        decreases n - i,
    {
        let ghost pre = rv.take(i as int);
        let ghost post = rv.take(i + 1);
        let ghost x = rv[i as int];
        let ghost nv = string_views(names@);
        proof {
            assert(post =~= pre.push(x));
        }
        let name = rs[i].kind.as_str();
        let len = names.len();
        let mut p: usize = 0;
        while p < len && str_lt(names[p].as_str(), name)
            invariant
                nv == string_views(names@),
                len == nv.len(),
                p <= len,
                forall|j: int| 0 <= j < p ==> lex_lt(#[trigger] nv[j], name@),
            decreases len - p,
        {
            p = p + 1;
        }
        let found = p < len && crate::text::str_eq(names[p].as_str(), name);
        if found {
            proof {
                lemma_kind_count_bound(pre, name@);
                assert(counts@[p as int] == kind_count(pre, nv[p as int]));
            }
            let c = counts[p];
            counts.set(p, c + 1);
            proof {
                assert forall|j: int| 0 <= j < counts@.len() implies #[trigger] counts@[j] == kind_count(
                    post,
                    names@[j]@,
                ) by {
                    lemma_kind_count_push(pre, x, names@[j]@);
                    if j != p {
                        assert(nv[j] != nv[p as int]) by {
                            lemma_lex_irreflexive(nv[j]);
                            if j < p {
                                assert(lex_lt(nv[j], nv[p as int]));
                            } else {
                                assert(lex_lt(nv[p as int], nv[j]));
                            }
                        }
                    }
                }
                assert forall|j: int| 0 <= j < nv.len() implies has_kind(post, #[trigger] nv[j]) by {
                    let k = choose|k: int| 0 <= k < pre.len() && kind_name(#[trigger] pre[k].kind) == nv[j];
                    assert(post[k] == pre[k]);
                }
                assert forall|k: int| 0 <= k < post.len() implies nv.contains(
                    kind_name(#[trigger] post[k].kind),
                ) by {
                    if k < pre.len() {
                        assert(post[k] == pre[k]);
                        assert(nv.contains(kind_name(pre[k].kind)));
                    } else {
                        assert(nv[p as int] == kind_name(post[k].kind));
                    }
                }
            }
        } else {
            proof {
                assert forall|j: int| 0 <= j < nv.len() implies nv[j] != name@ by {
                    lemma_lex_irreflexive(name@);
                    if j > p {
                        assert(lex_lt(nv[p as int], nv[j]));
                        lemma_lex_total(nv[p as int], name@);
                    }
                }
                assert forall|k: int| 0 <= k < pre.len() implies kind_name(#[trigger] pre[k].kind)
                    != name@ by {
                    assert(nv.contains(kind_name(pre[k].kind)));
                }
                lemma_kind_count_zero(pre, name@);
                if p < len {
                    lemma_lex_total(nv[p as int], name@);
                }
            }
            names.insert(p, name.to_owned());
            counts.insert(p, 1);
            proof {
                let nv2 = string_views(names@);
                assert(nv2 =~= nv.insert(p as int, name@));
                assert forall|a: int, b: int| 0 <= a < b < nv2.len() implies lex_lt(
                    #[trigger] nv2[a],
                    #[trigger] nv2[b],
                ) by {
                    if b < p {
                        assert(nv2[a] == nv[a] && nv2[b] == nv[b]);
                    } else if b == p {
                        assert(nv2[a] == nv[a]);
                    } else if a < p {
                        assert(nv2[a] == nv[a] && nv2[b] == nv[b - 1]);
                        assert(lex_lt(nv[a], name@));
                        assert(lex_lt(name@, nv[p as int]));
                        if b - 1 > p {
                            lemma_lex_transitive(name@, nv[p as int], nv[b - 1]);
                        }
                        lemma_lex_transitive(nv[a], name@, nv[b - 1]);
                    } else if a == p {
                        assert(nv2[b] == nv[b - 1]);
                        if b - 1 > p {
                            lemma_lex_transitive(name@, nv[p as int], nv[b - 1]);
                        }
                    } else {
                        assert(nv2[a] == nv[a - 1] && nv2[b] == nv[b - 1]);
                    }
                }
                assert forall|j: int| 0 <= j < nv2.len() implies has_kind(post, #[trigger] nv2[j]) by {
                    if j == p {
                        assert(kind_name(post[i as int].kind) == name@);
                    } else {
                        let o = if j < p {
                            j
                        } else {
                            j - 1
                        };
                        assert(nv2[j] == nv[o]);
                        let k = choose|k: int| 0 <= k < pre.len() && kind_name(#[trigger] pre[k].kind) == nv[o];
                        assert(post[k] == pre[k]);
                    }
                }
                assert forall|k: int| 0 <= k < post.len() implies nv2.contains(
                    kind_name(#[trigger] post[k].kind),
                ) by {
                    if k < pre.len() {
                        assert(post[k] == pre[k]);
                        assert(nv.contains(kind_name(pre[k].kind)));
                        let q = choose|q: int| 0 <= q < nv.len() && nv[q] == kind_name(pre[k].kind);
                        if q < p {
                            assert(nv2[q] == nv[q]);
                        } else {
                            assert(nv2[q + 1] == nv[q]);
                        }
                    } else {
                        assert(nv2[p as int] == kind_name(post[k].kind));
                    }
                }
                assert forall|j: int| 0 <= j < counts@.len() implies #[trigger] counts@[j] == kind_count(
                    post,
                    names@[j]@,
                ) by {
                    lemma_kind_count_push(pre, x, names@[j]@);
                    if j != p {
                        let o = if j < p {
                            j
                        } else {
                            j - 1
                        };
                        assert(names@[j]@ == nv[o]);
                    }
                }
            }
        }
        i = i + 1;
    }
    proof {
        assert(rv.take(n as int) =~= rv);
    }
    (names, counts)
}

/// The type filters of the pool: "all", selected, with the pool's size; then
/// one filter per resource kind, in the order of the kind names, labelled in
/// upper case and counting the pool's resources of that kind.
pub fn resource_type_filters(resources: &ResourceContext, labels: &ContextLabels) -> (r: Vec<
    ComposerResourceTypeFilter,
>)
    ensures
        type_filters_of(filter_views(r@), resource_views(resources.resources@), labels.all@),
{
    let ghost rv = resource_views(resources.resources@);
    let (names, counts) = kind_table(&resources.resources);
    let mut out: Vec<ComposerResourceTypeFilter> = Vec::new();
    out.push(
        ComposerResourceTypeFilter {
            id: "all".to_owned(),
            label: labels.all.clone(),
            count: resources.resources.len(),
            selected: true,
        },
    );
    let ghost head = filter_views(out@)[0];
    let n = names.len();
    let mut j: usize = 0;
    while j < n
        invariant
            rv == resource_views(resources.resources@),
            n == names@.len(),
            n == counts@.len(),
            j <= n,
            out@.len() == j + 1,
            filter_views(out@)[0] == head,
            forall|q: int|
                0 <= q < counts@.len() ==> #[trigger] counts@[q] == kind_count(rv, names@[q]@),
            forall|q: int|
                1 <= q < out@.len() ==> {
                    &&& (#[trigger] out@[q]).id@ == names@[q - 1]@
                    &&& out@[q].label@ == upper_text(names@[q - 1]@)
                    &&& out@[q].count == counts@[q - 1]
                    &&& !out@[q].selected
                },
        decreases n - j,
    {
        let label = to_uppercase(names[j].as_str());
        out.push(
            ComposerResourceTypeFilter {
                id: names[j].clone(),
                label,
                count: counts[j],
                selected: false,
            },
        );
        proof {
            assert(filter_views(out@)[0] == filter_views(out@).drop_last()[0]);
        }
        j = j + 1;
    }
    proof {
        let fv = filter_views(out@);
        assert(filter_ids(fv.skip(1)) =~= string_views(names@));
        assert forall|q: int| 1 <= q < fv.len() implies {
            &&& (#[trigger] fv[q]).label == upper_text(fv[q].id)
            &&& fv[q].count == kind_count(rv, fv[q].id)
            &&& !fv[q].selected
        } by {
            assert(counts@[q - 1] == kind_count(rv, names@[q - 1]@));
        }
    }
    out
}

/// One plan step in the input box.
pub struct ComposerPlanItem {
    pub title: String,
    pub status: String,
    pub description: String,
    pub risk: String,
    pub tool: Option<String>,
}

impl View for ComposerPlanItem {
    type V = PlanStepView;

    open spec fn view(&self) -> PlanStepView {
        PlanStepView {
            title: self.title@,
            description: self.description@,
            status: self.status@,
            risk: self.risk@,
            tool: crate::cards::opt_view(self.tool),
        }
    }
}

pub open spec fn plan_item_views(s: Seq<ComposerPlanItem>) -> Seq<PlanStepView> {
    s.map_values(|x: ComposerPlanItem| x@)
}

pub open spec fn plan_items_of(plan: Option<crate::events::PlanView>) -> Seq<PlanStepView> {
    match plan {
        Some(p) => p.steps,
        None => Seq::empty(),
    }
}

pub open spec fn opt_plan_view(plan: Option<&PlanCardData>) -> Option<crate::events::PlanView> {
    match plan {
        Some(p) => Some(p@),
        None => None,
    }
}

fn clone_opt(o: &Option<String>) -> (r: Option<String>)
    ensures
        crate::cards::opt_view(r) == crate::cards::opt_view(*o),
{
    match o {
        Some(s) => Some(s.clone()),
        None => None,
    }
}

/// The plan steps for the input box: every step of the plan, in order; none
/// without a plan.
pub fn composer_plan_items(plan: Option<&PlanCardData>) -> (r: Vec<ComposerPlanItem>)
    ensures
        plan_item_views(r@) == plan_items_of(opt_plan_view(plan)),
{
    let mut out: Vec<ComposerPlanItem> = Vec::new();
    match plan {
        None => {
            proof {
                assert(plan_item_views(out@) =~= Seq::<PlanStepView>::empty());
            }
        },
        Some(p) => {
            let ghost sv = p@.steps;
            let n = p.steps.len();
            let mut i: usize = 0;
            while i < n
                invariant
                    sv == p@.steps,
                    n == sv.len(),
                    n == p.steps@.len(),
                    i <= n,
                    plan_item_views(out@) =~= sv.take(i as int),
                decreases n - i,
            {
                let s: &PlanStepData = &p.steps[i];
                out.push(
                    ComposerPlanItem {
                        title: s.title.clone(),
                        status: s.status.clone(),
                        description: s.description.clone(),
                        risk: s.risk.clone(),
                        tool: clone_opt(&s.tool),
                    },
                );
                proof {
                    assert(sv[i as int] == p.steps@[i as int]@);
                    assert(sv.take(i + 1) =~= sv.take(i as int).push(sv[i as int]));
                }
                i = i + 1;
            }
            proof {
                assert(sv.take(n as int) =~= sv);
            }
        },
    }
    out
}

/// One sub-agent in the input box.
pub struct ComposerSubAgentItem {
    pub id: String,
    pub name: String,
    pub task: String,
    pub status: String,
    pub summary: String,
}

pub struct SubAgentItemView {
    pub id: Seq<char>,
    pub name: Seq<char>,
    pub task: Seq<char>,
    pub status: Seq<char>,
    pub summary: Seq<char>,
}

impl View for ComposerSubAgentItem {
    type V = SubAgentItemView;

    open spec fn view(&self) -> SubAgentItemView {
        SubAgentItemView {
            id: self.id@,
            name: self.name@,
            task: self.task@,
            status: self.status@,
            summary: self.summary@,
        }
    }
}

pub open spec fn subagent_item_views(s: Seq<ComposerSubAgentItem>) -> Seq<SubAgentItemView> {
    s.map_values(|x: ComposerSubAgentItem| x@)
}

pub open spec fn subagent_status_text(s: crate::cards::SubAgentView) -> Seq<char> {
    if s.running {
        "running"@
    } else if s.success == Some(false) {
        "failed"@
    } else {
        "completed"@
    }
}

pub open spec fn subagent_item_of(s: crate::cards::SubAgentView) -> SubAgentItemView {
    SubAgentItemView {
        id: s.subagent_id,
        name: s.name,
        task: s.task,
        status: subagent_status_text(s),
        summary: s.summary,
    }
}

/// The sub-agents for the input box, in order, each with its status.
pub fn composer_subagent_items(subagents: &Vec<SubAgentCardData>) -> (r: Vec<ComposerSubAgentItem>)
    ensures
        r@.len() == subagents@.len(),
        forall|i: int|
            0 <= i < r@.len() ==> (#[trigger] r@[i])@ == subagent_item_of(subagents@[i]@),
{
    let mut out: Vec<ComposerSubAgentItem> = Vec::new();
    let n = subagents.len();
    let mut i: usize = 0;
    while i < n
        invariant
            n == subagents@.len(),
            i <= n,
            out@.len() == i,
            forall|k: int| 0 <= k < i ==> (#[trigger] out@[k])@ == subagent_item_of(subagents@[k]@),
        decreases n - i,
    {
        let s = &subagents[i];
        out.push(
            ComposerSubAgentItem {
                id: s.subagent_id.clone(),
                name: s.name.clone(),
                task: s.task.clone(),
                status: subagent_status_for_composer(s).to_owned(),
                summary: s.summary.clone(),
            },
        );
        i = i + 1;
    }
    out
}

/// What the input box shows about the session.
pub struct AgentComposerContext {
    pub target: Option<ComposerTarget>,
    pub resource_pool: ComposerResourcePoolSummary,
    pub resource_type_filters: Vec<ComposerResourceTypeFilter>,
    pub scopes: Vec<ComposerScope>,
    pub capabilities: Vec<String>,
    pub plan_items: Vec<ComposerPlanItem>,
    pub subagent_items: Vec<ComposerSubAgentItem>,
    pub execution_mode_label: String,
}

/// The context of the pool alone: the default target with its scopes and the
/// capability line "target label, kind name" when there is one, nothing of
/// these without; the pool summary; the type filters; the mode's label; no
/// plan steps and no sub-agents.
pub open spec fn pool_context_ok(
    c: AgentComposerContext,
    pool: PoolView,
    mode: ToolExecutionMode,
    labels: ContextLabels,
) -> bool {
    &&& match current_of(pool) {
        Some(i) => {
            &&& c.target is Some
            &&& c.target->0@ == target_of(pool.resources[i])
            &&& composer_scope_views(c.scopes@) == pool.resources[i].scopes
            &&& string_views(c.capabilities@) == seq![labels.target@, kind_name(pool.resources[i].kind)]
        },
        None => {
            &&& c.target is None
            &&& c.scopes@.len() == 0
            &&& c.capabilities@.len() == 0
        },
    }
    &&& c.resource_pool@ == pool_summary_of(pool, labels.no_default_target@)
    &&& type_filters_of(filter_views(c.resource_type_filters@), pool.resources, labels.all@)
    &&& c.execution_mode_label@ == mode_label_text(mode, labels)
}

/// The input box context built from the resource pool alone.
pub fn build_context(resources: &ResourceContext, mode: ToolExecutionMode, labels: &ContextLabels) -> (c:
    AgentComposerContext)
    ensures
        pool_context_ok(c, resources@, mode, *labels),
        c.plan_items@.len() == 0,
        c.subagent_items@.len() == 0,
{
    let (target, scopes, capabilities) = match resources.current_resource() {
        Some(current) => {
            let mut caps: Vec<String> = Vec::new();
            caps.push(labels.target.clone());
            caps.push(current.kind.as_str().to_owned());
            proof {
                assert(string_views(caps@) =~= seq![labels.target@, kind_name(current@.kind)]);
            }
            (Some(target_from_resource(current)), composer_scopes(&current.scopes), caps)
        },
        None => (None, Vec::new(), Vec::new()),
    };
    AgentComposerContext {
        target,
        resource_pool: resource_pool_summary(resources, labels),
        resource_type_filters: resource_type_filters(resources, labels),
        scopes,
        capabilities,
        plan_items: Vec::new(),
        subagent_items: Vec::new(),
        execution_mode_label: tool_execution_mode_label(mode, labels),
    }
}

/// The input box context of a session: that of its pool, with the plan's
/// steps and the sub-agents.
pub fn build_composer_context(
    resources: &ResourceContext,
    mode: ToolExecutionMode,
    plan: Option<&PlanCardData>,
    subagents: &Vec<SubAgentCardData>,
    labels: &ContextLabels,
) -> (c: AgentComposerContext)
    ensures
        pool_context_ok(c, resources@, mode, *labels),
        plan_item_views(c.plan_items@) == plan_items_of(opt_plan_view(plan)),
        c.subagent_items@.len() == subagents@.len(),
        forall|i: int|
            0 <= i < c.subagent_items@.len() ==> (#[trigger] c.subagent_items@[i])@ == subagent_item_of(
                subagents@[i]@,
            ),
{
    let mut context = build_context(resources, mode, labels);
    context.plan_items = composer_plan_items(plan);
    context.subagent_items = composer_subagent_items(subagents);
    context
}

} // verus!
