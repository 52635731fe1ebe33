//! The task list of the sidebar: stored sessions merged with the sessions that
//! are open or running right now, newest first.
use vstd::prelude::*;
use vstd::multiset::Multiset;

use crate::composer::{contains_str, string_views};
use crate::transcript_model::{is_last, last_index, lemma_last_index_is, lemma_last_index_none};

verus! {

/// One row of the task list.
#[derive(Debug)]
pub struct SessionSummary {
    pub id: String,
    pub title: String,
    pub updated_at: i64,
}

pub struct SummaryView {
    pub id: Seq<char>,
    pub title: Seq<char>,
    pub updated_at: i64,
}

impl View for SessionSummary {
    type V = SummaryView;

    open spec fn view(&self) -> SummaryView {
        SummaryView { id: self.id@, title: self.title@, updated_at: self.updated_at }
    }
}

pub open spec fn summary_views(s: Seq<SessionSummary>) -> Seq<SummaryView> {
    s.map_values(|x: SessionSummary| x@)
}

impl SessionSummary {
    pub fn new(id: &str, title: &str, updated_at: i64) -> (r: Self)
        ensures
            r@ == (SummaryView { id: id@, title: title@, updated_at }),
    {
        SessionSummary { id: id.to_owned(), title: title.to_owned(), updated_at }
    }

    pub fn duplicate(&self) -> (r: Self)
        ensures
            r@ == self@,
    {
        SessionSummary { id: self.id.clone(), title: self.title.clone(), updated_at: self.updated_at }
    }
}

/// A live session shows in the list while it is the open one or still runs.
pub open spec fn kept_live(current: Seq<char>, running: Seq<Seq<char>>) -> spec_fn(SummaryView) -> bool {
    |s: SummaryView| s.id == current || running.contains(s.id)
}

pub open spec fn summary_ids(s: Seq<SummaryView>) -> Seq<Seq<char>> {
    s.map_values(|x: SummaryView| x.id)
}

/// Live sessions that are kept and have no stored row, in their order.
pub open spec fn unsaved_live(
    persisted: Seq<SummaryView>,
    live: Seq<SummaryView>,
    current: Seq<char>,
    running: Seq<Seq<char>>,
) -> Seq<SummaryView> {
    live.filter(|s: SummaryView| kept_live(current, running)(s) && !summary_ids(persisted).contains(s.id))
}

pub open spec fn kept_live_with_id(current: Seq<char>, running: Seq<Seq<char>>, id: Seq<char>) -> spec_fn(
    SummaryView,
) -> bool {
    |s: SummaryView| kept_live(current, running)(s) && s.id == id
}

/// A stored row, replaced by the last kept live row with its id, if any.
pub open spec fn fresh_row(
    p: SummaryView,
    live: Seq<SummaryView>,
    current: Seq<char>,
    running: Seq<Seq<char>>,
) -> SummaryView {
    match last_index(live, kept_live_with_id(current, running, p.id)) {
        Some(k) => live[k],
        None => p,
    }
}

pub open spec fn fresh_rows(
    persisted: Seq<SummaryView>,
    live: Seq<SummaryView>,
    current: Seq<char>,
    running: Seq<Seq<char>>,
) -> Seq<SummaryView> {
    persisted.map_values(|p: SummaryView| fresh_row(p, live, current, running))
}

/// Puts `x` after every row of `s` that is at least as new.
pub open spec fn insert_by_recency(s: Seq<SummaryView>, x: SummaryView) -> Seq<SummaryView>
    decreases s.len(),
{
    if s.len() == 0 {
        seq![x]
    } else if s[0].updated_at >= x.updated_at {
        seq![s[0]] + insert_by_recency(s.drop_first(), x)
    } else {
        seq![x] + s
    }
}

/// The rows ordered newest first; rows of equal time keep their order.
pub open spec fn newest_first(s: Seq<SummaryView>) -> Seq<SummaryView>
    decreases s.len(),
{
    if s.len() == 0 {
        s
    } else {
        insert_by_recency(newest_first(s.drop_last()), s.last())
    }
}

/// The task list: the stored rows alone when archived tasks are shown, else
/// the unsaved live rows and the refreshed stored rows, newest first.
pub open spec fn merged_sessions(
    persisted: Seq<SummaryView>,
    live: Seq<SummaryView>,
    current: Seq<char>,
    running: Seq<Seq<char>>,
    show_archived: bool,
) -> Seq<SummaryView> {
    if show_archived {
        persisted
    } else {
        newest_first(
            unsaved_live(persisted, live, current, running) + fresh_rows(persisted, live, current, running),
        )
    }
}

pub open spec fn is_newest_first(s: Seq<SummaryView>) -> bool {
    forall|i: int, j: int| 0 <= i < j < s.len() ==> s[i].updated_at >= s[j].updated_at
}

fn is_kept(s: &SessionSummary, current: &str, running: &Vec<String>) -> (r: bool)
    ensures
        r == kept_live(current@, string_views(running@))(s@),
{
    crate::text::str_eq(s.id.as_str(), current) || contains_str(running, s.id.as_str())
}

fn has_session_id(list: &Vec<SessionSummary>, id: &str) -> (r: bool)
    ensures
        r == summary_ids(summary_views(list@)).contains(id@),
{
    let ghost ids = summary_ids(summary_views(list@));
    let n = list.len();
    let mut i: usize = 0;
    while i < n
        invariant
            ids == summary_ids(summary_views(list@)),
            n == list@.len(),
            i <= n,
            forall|j: int| 0 <= j < i ==> ids[j] != id@,
        decreases n - i,
    {
        if crate::text::str_eq(list[i].id.as_str(), id) {
            proof {
                assert(ids[i as int] == id@);
            }
            return true;
        }
        i = i + 1;
    }
    proof {
        if ids.contains(id@) {
            let j = choose|j: int| 0 <= j < ids.len() && ids[j] == id@;
            assert(ids[j] != id@);
        }
    }
    false
}

fn last_kept_live(live: &Vec<SessionSummary>, current: &str, running: &Vec<String>, id: &str) -> (r:
    Option<usize>)
    ensures
        match r {
            Some(k) => k < live@.len() && last_index(
                summary_views(live@),
                kept_live_with_id(current@, string_views(running@), id@),
            ) == Some(k as int),
            None => last_index(
                summary_views(live@),
                kept_live_with_id(current@, string_views(running@), id@),
            ) is None,
        },
{
    let ghost lv = summary_views(live@);
    let ghost p = kept_live_with_id(current@, string_views(running@), id@);
    let mut i: usize = live.len();
    while i > 0
        invariant
            lv == summary_views(live@),
            p == kept_live_with_id(current@, string_views(running@), id@),
            i <= lv.len(),
            forall|j: int| i <= j < lv.len() ==> !p(#[trigger] lv[j]),
        decreases i,
    {
        let k = i - 1;
        if crate::text::str_eq(live[k].id.as_str(), id) && is_kept(&live[k], current, running) {
            proof {
                assert(p(lv[k as int]));
                assert(is_last(lv, p, k as int));
                lemma_last_index_is(lv, p, k as int);
            }
            return Some(k);
        }
        proof {
            assert(!p(lv[k as int]));
        }
        i = k;
    }
    proof {
        lemma_last_index_none(lv, p);
    }
    None
}

proof fn lemma_insert_at(s: Seq<SummaryView>, x: SummaryView, k: int)
    requires
        0 <= k <= s.len(),
        forall|j: int| 0 <= j < k ==> #[trigger] s[j].updated_at >= x.updated_at,
        k < s.len() ==> s[k].updated_at < x.updated_at,
    ensures
        insert_by_recency(s, x) == s.take(k) + seq![x] + s.skip(k),
    decreases s.len(),
{
    if s.len() == 0 {
        assert(s.take(k) + seq![x] + s.skip(k) =~= seq![x]);
    } else if k == 0 {
        assert(s.take(0) + seq![x] + s.skip(0) =~= seq![x] + s);
    } else {
        let t = s.drop_first();
        assert forall|j: int| 0 <= j < k - 1 implies #[trigger] t[j].updated_at >= x.updated_at by {
            assert(t[j] == s[j + 1]);
        }
        lemma_insert_at(t, x, k - 1);
        assert(seq![s[0]] + (t.take(k - 1) + seq![x] + t.skip(k - 1)) =~= s.take(k) + seq![x] + s.skip(
            k,
        ));
    }
}

fn insert_newest_first(acc: &mut Vec<SessionSummary>, x: SessionSummary)
    ensures
        summary_views(final(acc)@) == insert_by_recency(summary_views(old(acc)@), x@),
{
    let ghost s = summary_views(acc@);
    let n = acc.len();
    let mut k: usize = 0;
    while k < n && acc[k].updated_at >= x.updated_at
        invariant
            s == summary_views(acc@),
            n == s.len(),
            k <= n,
            forall|j: int| 0 <= j < k ==> #[trigger] s[j].updated_at >= x.updated_at,
        decreases n - k,
    {
        k = k + 1;
    }
    proof {
        lemma_insert_at(s, x@, k as int);
    }
    let ghost xv = x@;
    acc.insert(k, x);
    proof {
        assert(summary_views(acc@) =~= s.take(k as int) + seq![xv] + s.skip(k as int));
    }
}

fn sort_newest_first(rows: Vec<SessionSummary>) -> (r: Vec<SessionSummary>)
    ensures
        summary_views(r@) == newest_first(summary_views(rows@)),
{
    let ghost rv = summary_views(rows@);
    let mut out: Vec<SessionSummary> = Vec::new();
    proof {
        assert(rv.take(0) =~= Seq::<SummaryView>::empty());
        assert(summary_views(out@) =~= newest_first(rv.take(0)));
    }
    let n = rows.len();
    let mut i: usize = 0;
    while i < n
        invariant
            rv == summary_views(rows@),
            n == rv.len(),
            i <= n,
            summary_views(out@) == newest_first(rv.take(i as int)),
        decreases n - i,
    {
        proof {
            assert(rv.take(i + 1).drop_last() =~= rv.take(i as int));
            assert(rv.take(i + 1).last() == rv[i as int]);
        }
        insert_newest_first(&mut out, rows[i].duplicate());
        i = i + 1;
    }
    proof {
        assert(rv.take(n as int) =~= rv);
    }
    out
}

/// The sidebar's task list. With archived tasks shown it is the stored list as
/// it is. Otherwise the open session and the running ones join it: a live row
/// replaces the stored row with its id, a live row without one is added, and
/// the whole list is ordered newest first, rows of equal time in the order of
/// the live rows and then the stored ones.
pub fn merge_live_session_summaries(
    persisted: Vec<SessionSummary>,
    live: &Vec<SessionSummary>,
    current_session: &str,
    running_sessions: &Vec<String>,
    show_archived: bool,
) -> (r: Vec<SessionSummary>)
    ensures
        summary_views(r@) == merged_sessions(
            summary_views(persisted@),
            summary_views(live@),
            current_session@,
            string_views(running_sessions@),
            show_archived,
        ),
{
    if show_archived {
        return persisted;
    }
    let ghost pv = summary_views(persisted@);
    let ghost lv = summary_views(live@);
    let ghost running = string_views(running_sessions@);
    let ghost keep_new = |s: SummaryView|
        kept_live(current_session@, running)(s) && !summary_ids(pv).contains(s.id);
    let mut rows: Vec<SessionSummary> = Vec::new();
    proof {
        assert(lv.take(0) =~= Seq::<SummaryView>::empty());
        reveal_with_fuel(Seq::filter, 1);
        assert(summary_views(rows@) =~= lv.take(0).filter(keep_new));
    }
    let n = live.len();
    let mut i: usize = 0;
    while i < n
        invariant
            pv == summary_views(persisted@),
            lv == summary_views(live@),
            running == string_views(running_sessions@),
            keep_new == (|s: SummaryView|
                kept_live(current_session@, running)(s) && !summary_ids(pv).contains(s.id)),
            n == lv.len(),
            i <= n,
            summary_views(rows@) == lv.take(i as int).filter(keep_new),
        decreases n - i,
    {
        proof {
            assert(lv.take(i + 1).drop_last() =~= lv.take(i as int));
            assert(lv.take(i + 1).last() == lv[i as int]);
        }
        let ghost prev = summary_views(rows@);
        let keep = is_kept(&live[i], current_session, running_sessions) && !has_session_id(
            &persisted,
            live[i].id.as_str(),
        );
        proof {
            assert(keep == keep_new(lv[i as int]));
            reveal_with_fuel(Seq::filter, 1);
            assert(lv.take(i + 1).filter(keep_new) == (if keep_new(lv[i as int]) {
                lv.take(i as int).filter(keep_new).push(lv[i as int])
            } else {
                lv.take(i as int).filter(keep_new)
            }));
        }
        if keep {
            rows.push(live[i].duplicate());
            proof {
                assert(summary_views(rows@) =~= prev.push(lv[i as int]));
            }
        }
        i = i + 1;
    }
    proof {
        assert(lv.take(n as int) =~= lv);
        assert(keep_new == (|s: SummaryView|
            kept_live(current_session@, running)(s) && !summary_ids(pv).contains(s.id)));
        assert(summary_views(rows@) == unsaved_live(pv, lv, current_session@, running));
    }
    let ghost added = summary_views(rows@);
    let m = persisted.len();
    let mut j: usize = 0;
    while j < m
        invariant
            pv == summary_views(persisted@),
            lv == summary_views(live@),
            running == string_views(running_sessions@),
            m == pv.len(),
            j <= m,
            summary_views(rows@) == added + fresh_rows(pv.take(j as int), lv, current_session@, running),
        decreases m - j,
    {
        let ghost prev = summary_views(rows@);
        match last_kept_live(live, current_session, running_sessions, persisted[j].id.as_str()) {
            Some(k) => rows.push(live[k].duplicate()),
            None => rows.push(persisted[j].duplicate()),
        }
        proof {
            assert(fresh_rows(pv.take(j + 1), lv, current_session@, running) =~= fresh_rows(
                pv.take(j as int),
                lv,
                current_session@,
                running,
            ).push(fresh_row(pv[j as int], lv, current_session@, running)));
            assert(summary_views(rows@) =~= prev.push(fresh_row(pv[j as int], lv, current_session@, running)));
        }
        j = j + 1;
    }
    proof {
        assert(pv.take(m as int) =~= pv);
    }
    sort_newest_first(rows)
}

proof fn lemma_insert_keeps_order(s: Seq<SummaryView>, x: SummaryView)
    requires
        is_newest_first(s),
    ensures
        is_newest_first(insert_by_recency(s, x)),
        insert_by_recency(s, x).to_multiset() == s.to_multiset().insert(x),
        forall|k: int|
            0 <= k < insert_by_recency(s, x).len() ==> #[trigger] insert_by_recency(s, x)[k] == x
                || s.contains(insert_by_recency(s, x)[k]),
    decreases s.len(),
{
    broadcast use vstd::seq_lib::group_to_multiset_ensures, vstd::multiset::group_multiset_axioms;

    let r = insert_by_recency(s, x);
    if s.len() == 0 {
        assert(Seq::<SummaryView>::empty().push(x) =~= seq![x]);
        assert(s.to_multiset() =~= Multiset::<SummaryView>::empty());
    } else if s[0].updated_at >= x.updated_at {
        let t = s.drop_first();
        assert(is_newest_first(t)) by {
            assert forall|i: int, j: int| 0 <= i < j < t.len() implies t[i].updated_at
                >= t[j].updated_at by {
                assert(t[i] == s[i + 1] && t[j] == s[j + 1]);
            }
        }
        lemma_insert_keeps_order(t, x);
        let it = insert_by_recency(t, x);
        assert(r == seq![s[0]] + it);
        assert forall|k: int| 0 <= k < r.len() implies #[trigger] r[k] == x || s.contains(r[k]) by {
            if k == 0 {
                assert(s[0] == r[0]);
            } else {
                assert(r[k] == it[k - 1]);
                if it[k - 1] != x {
                    let q = choose|q: int| 0 <= q < t.len() && t[q] == it[k - 1];
                    assert(s[q + 1] == r[k]);
                }
            }
        }
        assert forall|i: int, j: int| 0 <= i < j < r.len() implies r[i].updated_at
            >= r[j].updated_at by {
            if i == 0 {
                assert(r[j] == it[j - 1]);
                if it[j - 1] != x {
                    let q = choose|q: int| 0 <= q < t.len() && t[q] == it[j - 1];
                    assert(s[q + 1] == r[j]);
                }
            } else {
                assert(r[i] == it[i - 1] && r[j] == it[j - 1]);
            }
        }
        vstd::seq_lib::lemma_multiset_commutative(seq![s[0]], it);
        vstd::seq_lib::lemma_multiset_commutative(seq![s[0]], t);
        assert(seq![s[0]] + t =~= s);
        assert(Seq::<SummaryView>::empty().push(s[0]) =~= seq![s[0]]);
        assert(Seq::<SummaryView>::empty().to_multiset() =~= Multiset::<SummaryView>::empty());
        assert(r.to_multiset() =~= s.to_multiset().insert(x));
    } else {
        assert(r == seq![x] + s);
        assert forall|k: int| 0 <= k < r.len() implies #[trigger] r[k] == x || s.contains(r[k]) by {
            if k > 0 {
                assert(r[k] == s[k - 1]);
            }
        }
        assert forall|i: int, j: int| 0 <= i < j < r.len() implies r[i].updated_at
            >= r[j].updated_at by {
            if i == 0 {
                assert(r[j] == s[j - 1]);
                assert(s[0].updated_at >= s[j - 1].updated_at || j - 1 == 0);
            } else {
                assert(r[i] == s[i - 1] && r[j] == s[j - 1]);
            }
        }
        vstd::seq_lib::lemma_multiset_commutative(seq![x], s);
        assert(Seq::<SummaryView>::empty().push(x) =~= seq![x]);
        assert(Seq::<SummaryView>::empty().to_multiset() =~= Multiset::<SummaryView>::empty());
        assert(r.to_multiset() =~= s.to_multiset().insert(x));
    }
}

/// Ordering newest first keeps exactly the rows it was given and leaves every
/// row at least as new as the rows after it.
pub proof fn lemma_newest_first_orders_rows(s: Seq<SummaryView>)
    ensures
        is_newest_first(newest_first(s)),
        newest_first(s).to_multiset() == s.to_multiset(),
    decreases s.len(),
{
    if s.len() == 0 {
    } else {
        lemma_newest_first_orders_rows(s.drop_last());
        lemma_insert_keeps_order(newest_first(s.drop_last()), s.last());
        vstd::seq_lib::to_multiset_build(s.drop_last(), s.last());
        assert(s.drop_last().push(s.last()) =~= s);
    }
}

/// The task list without archived tasks is ordered newest first and holds
/// every unsaved live row and every refreshed stored row, and nothing else.
pub proof fn lemma_merged_sessions_newest_first(
    persisted: Seq<SummaryView>,
    live: Seq<SummaryView>,
    current: Seq<char>,
    running: Seq<Seq<char>>,
)
    ensures
        is_newest_first(merged_sessions(persisted, live, current, running, false)),
        merged_sessions(persisted, live, current, running, false).to_multiset() == (unsaved_live(
            persisted,
            live,
            current,
            running,
        ) + fresh_rows(persisted, live, current, running)).to_multiset(),
{
    lemma_newest_first_orders_rows(
        unsaved_live(persisted, live, current, running) + fresh_rows(persisted, live, current, running),
    );
}

/// Which rows the task list is made of: each stored row keeps its place
/// and id, and is replaced by the last live row with its id when that
/// session is open or running; a live row joins as its own row exactly when
/// its session is open or running and has no stored row.
pub proof fn lemma_merged_rows(
    persisted: Seq<SummaryView>,
    live: Seq<SummaryView>,
    current: Seq<char>,
    running: Seq<Seq<char>>,
)
    ensures
        fresh_rows(persisted, live, current, running).len() == persisted.len(),
        forall|k: int|
            0 <= k < persisted.len() ==> {
                let f = #[trigger] fresh_rows(persisted, live, current, running)[k];
                &&& f.id == persisted[k].id
                &&& f == persisted[k] || (live.contains(f) && kept_live(current, running)(f))
                &&& (exists|j: int|
                    0 <= j < live.len() && kept_live(current, running)(#[trigger] live[j])
                        && live[j].id == persisted[k].id) ==> live.contains(f) && kept_live(
                    current,
                    running,
                )(f)
            },
        forall|x: SummaryView|
            #[trigger] unsaved_live(persisted, live, current, running).contains(x) <==> (
            live.contains(x) && kept_live(current, running)(x) && !summary_ids(persisted).contains(
                x.id,
            )),
{
    broadcast use vstd::seq_lib::group_filter_ensures;

    let pred = |s: SummaryView| kept_live(current, running)(s) && !summary_ids(persisted).contains(s.id);
    let u = unsaved_live(persisted, live, current, running);
    assert(u == live.filter(pred));
    assert forall|x: SummaryView| #[trigger] u.contains(x) <==> (live.contains(x) && kept_live(
        current,
        running,
    )(x) && !summary_ids(persisted).contains(x.id)) by {
        if u.contains(x) {
            live.lemma_filter_contains_rev(pred, x);
            let k = choose|k: int| 0 <= k < u.len() && u[k] == x;
            assert(pred(u[k]));
        }
        if live.contains(x) && pred(x) {
            let k = choose|k: int| 0 <= k < live.len() && live[k] == x;
            live.lemma_filter_contains(pred, k);
        }
    }
    assert forall|k: int| 0 <= k < persisted.len() implies {
        let f = #[trigger] fresh_rows(persisted, live, current, running)[k];
        &&& f.id == persisted[k].id
        &&& f == persisted[k] || (live.contains(f) && kept_live(current, running)(f))
        &&& (exists|j: int|
            0 <= j < live.len() && kept_live(current, running)(#[trigger] live[j]) && live[j].id
                == persisted[k].id) ==> live.contains(f) && kept_live(current, running)(f)
    } by {
        let p = persisted[k];
        let q = kept_live_with_id(current, running, p.id);
        crate::transcript_model::lemma_last_index_found(live, q);
        if exists|j: int|
            0 <= j < live.len() && kept_live(current, running)(#[trigger] live[j]) && live[j].id
                == p.id {
            let j = choose|j: int|
                0 <= j < live.len() && kept_live(current, running)(#[trigger] live[j]) && live[j].id
                    == p.id;
            assert(q(live[j]));
            crate::transcript_model::lemma_last_index_is_some(live, q, j);
        }
        if let Some(m) = last_index(live, q) {
            assert(q(live[m]));
            assert(live.contains(live[m]));
        }
    }
}

} // verus!
