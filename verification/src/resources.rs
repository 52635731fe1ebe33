//! The resource pool an agent session works on: which resources of the
//! catalog are in the pool, which one is the default target, and the quick
//! "sources" (current, all, by type) the composer offers to fill it.
use vstd::prelude::*;

use crate::composer::string_views;
use crate::transcript_model::{
    first_index, is_first, lemma_first_index_is, lemma_first_index_none,
};

verus! {

/// The kind of a resource.
#[derive(Debug, Clone)]
pub enum ResourceKind {
    Ssh,
    Mysql,
    Postgres,
    Sqlite,
    Redis,
    Mongo,
    Terminal,
    Other(String),
}

#[verifier::ext_equal]
pub enum KindView {
    Ssh,
    Mysql,
    Postgres,
    Sqlite,
    Redis,
    Mongo,
    Terminal,
    Other(Seq<char>),
}

impl View for ResourceKind {
    type V = KindView;

    open spec fn view(&self) -> KindView {
        match *self {
            ResourceKind::Ssh => KindView::Ssh,
            ResourceKind::Mysql => KindView::Mysql,
            ResourceKind::Postgres => KindView::Postgres,
            ResourceKind::Sqlite => KindView::Sqlite,
            ResourceKind::Redis => KindView::Redis,
            ResourceKind::Mongo => KindView::Mongo,
            ResourceKind::Terminal => KindView::Terminal,
            ResourceKind::Other(k) => KindView::Other(k@),
        }
    }
}

/// The name of a resource kind, as the catalog writes it.
pub open spec fn kind_name(k: KindView) -> Seq<char> {
    match k {
        KindView::Ssh => "ssh"@,
        KindView::Mysql => "mysql"@,
        KindView::Postgres => "postgres"@,
        KindView::Sqlite => "sqlite"@,
        KindView::Redis => "redis"@,
        KindView::Mongo => "mongo"@,
        KindView::Terminal => "terminal"@,
        KindView::Other(o) => o,
    }
}

impl ResourceKind {
    pub fn as_str(&self) -> (r: &str)
        ensures
            r@ == kind_name(self@),
    {
        match self {
            ResourceKind::Ssh => "ssh",
            ResourceKind::Mysql => "mysql",
            ResourceKind::Postgres => "postgres",
            ResourceKind::Sqlite => "sqlite",
            ResourceKind::Redis => "redis",
            ResourceKind::Mongo => "mongo",
            ResourceKind::Terminal => "terminal",
            ResourceKind::Other(o) => o.as_str(),
        }
    }
}

/// One fact that narrows a resource, such as its database or schema.
#[derive(Debug, Clone)]
pub struct ResourceScope {
    pub key: String,
    pub label: String,
    pub value: String,
}

pub struct ScopeView {
    pub key: Seq<char>,
    pub label: Seq<char>,
    pub value: Seq<char>,
}

impl View for ResourceScope {
    type V = ScopeView;

    open spec fn view(&self) -> ScopeView {
        ScopeView { key: self.key@, label: self.label@, value: self.value@ }
    }
}

pub open spec fn scope_views(s: Seq<ResourceScope>) -> Seq<ScopeView> {
    s.map_values(|x: ResourceScope| x@)
}

impl ResourceScope {
    pub fn new(key: &str, label: &str, value: &str) -> (r: Self)
        ensures
            r@ == (ScopeView { key: key@, label: label@, value: value@ }),
    {
        ResourceScope { key: key.to_owned(), label: label.to_owned(), value: value.to_owned() }
    }

    pub fn duplicate(&self) -> (r: Self)
        ensures
            r@ == self@,
    {
        ResourceScope { key: self.key.clone(), label: self.label.clone(), value: self.value.clone() }
    }
}

/// A resource of the catalog.
#[derive(Debug, Clone)]
pub struct ResourceRef {
    pub id: String,
    pub kind: ResourceKind,
    pub label: String,
    pub scopes: Vec<ResourceScope>,
}

#[verifier::ext_equal]
pub struct ResourceView {
    pub id: Seq<char>,
    pub kind: KindView,
    pub label: Seq<char>,
    pub scopes: Seq<ScopeView>,
}

impl View for ResourceRef {
    type V = ResourceView;

    open spec fn view(&self) -> ResourceView {
        ResourceView {
            id: self.id@,
            kind: self.kind@,
            label: self.label@,
            scopes: scope_views(self.scopes@),
        }
    }
}

fn clone_scopes(scopes: &Vec<ResourceScope>) -> (r: Vec<ResourceScope>)
    ensures
        scope_views(r@) == scope_views(scopes@),
{
    let mut out: Vec<ResourceScope> = Vec::new();
    let n = scopes.len();
    let mut i: usize = 0;
    while i < n
        invariant
            n == scopes@.len(),
            i <= n,
            scope_views(out@) =~= scope_views(scopes@).take(i as int),
        decreases n - i,
    {
        out.push(scopes[i].duplicate());
        proof {
            assert(scope_views(scopes@).take(i + 1) =~= scope_views(scopes@).take(i as int).push(
                scopes@[i as int]@,
            ));
        }
        i = i + 1;
    }
    proof {
        assert(scope_views(scopes@).take(n as int) =~= scope_views(scopes@));
    }
    out
}

fn scopes_eq(a: &Vec<ResourceScope>, b: &Vec<ResourceScope>) -> (r: bool)
    ensures
        r == (scope_views(a@) == scope_views(b@)),
{
    if a.len() != b.len() {
        proof {
            assert(scope_views(a@).len() != scope_views(b@).len());
        }
        return false;
    }
    let n = a.len();
    let mut i: usize = 0;
    while i < n
        invariant
            n == a@.len(),
            n == b@.len(),
            i <= n,
            forall|j: int| 0 <= j < i ==> a@[j]@ == b@[j]@,
        decreases n - i,
    {
        if !(crate::text::str_eq(a[i].key.as_str(), b[i].key.as_str()) && crate::text::str_eq(
            a[i].label.as_str(),
            b[i].label.as_str(),
        ) && crate::text::str_eq(a[i].value.as_str(), b[i].value.as_str())) {
            proof {
                assert(scope_views(a@)[i as int] != scope_views(b@)[i as int]);
            }
            return false;
        }
        i = i + 1;
    }
    proof {
        assert(scope_views(a@) =~= scope_views(b@));
    }
    true
}

/// The resources a session may act on, and its default target.
#[derive(Debug, Clone)]
pub struct ResourceContext {
    pub resources: Vec<ResourceRef>,
    pub current: Option<String>,
}

#[verifier::ext_equal]
pub struct PoolView {
    pub resources: Seq<ResourceView>,
    pub current: Option<Seq<char>>,
}

pub open spec fn resource_views(s: Seq<ResourceRef>) -> Seq<ResourceView> {
    s.map_values(|r: ResourceRef| r@)
}

impl View for ResourceContext {
    type V = PoolView;

    open spec fn view(&self) -> PoolView {
        PoolView {
            resources: resource_views(self.resources@),
            current: crate::cards::opt_view(self.current),
        }
    }
}

pub open spec fn is_database(k: KindView) -> bool {
    k is Mysql || k is Postgres || k is Sqlite || k is Mongo
}

pub fn is_database_kind(kind: &ResourceKind) -> (r: bool)
    ensures
        r == is_database(kind@),
{
    match kind {
        ResourceKind::Mysql | ResourceKind::Postgres | ResourceKind::Sqlite
        | ResourceKind::Mongo => true,
        _ => false,
    }
}

pub open spec fn kind_icon_text(k: KindView) -> Seq<char> {
    match k {
        KindView::Mysql | KindView::Postgres | KindView::Sqlite => "DB"@,
        KindView::Ssh => "SH"@,
        KindView::Redis => "RD"@,
        KindView::Mongo => "MG"@,
        KindView::Terminal => "TM"@,
        KindView::Other(o) => if o == "rdp"@ {
            "RD"@
        } else if o == "vnc"@ {
            "VN"@
        } else if o == "port-forwarding"@ {
            "PF"@
        } else {
            "OT"@
        },
    }
}

/// The two-letter badge of a resource kind.
pub fn kind_icon(kind: &ResourceKind) -> (r: &'static str)
    ensures
        r@ == kind_icon_text(kind@),
{
    match kind {
        ResourceKind::Mysql | ResourceKind::Postgres | ResourceKind::Sqlite => "DB",
        ResourceKind::Ssh => "SH",
        ResourceKind::Redis => "RD",
        ResourceKind::Mongo => "MG",
        ResourceKind::Terminal => "TM",
        ResourceKind::Other(o) => if crate::text::str_eq(o.as_str(), "rdp") {
            "RD"
        } else if crate::text::str_eq(o.as_str(), "vnc") {
            "VN"
        } else if crate::text::str_eq(o.as_str(), "port-forwarding") {
            "PF"
        } else {
            "OT"
        },
    }
}

pub open spec fn res_id_is(id: Seq<char>) -> spec_fn(ResourceView) -> bool {
    |r: ResourceView| r.id == id
}

/// The first resource with the id.
pub open spec fn find_res(rs: Seq<ResourceView>, id: Seq<char>) -> Option<int> {
    first_index(rs, res_id_is(id))
}

/// The default target: the pool's resource with the current id.
pub open spec fn current_of(pool: PoolView) -> Option<int> {
    match pool.current {
        Some(c) => find_res(pool.resources, c),
        None => None,
    }
}

fn find_resource(list: &Vec<ResourceRef>, id: &str) -> (r: Option<usize>)
    ensures
        match r {
            Some(i) => find_res(resource_views(list@), id@) == Some(i as int) && i < list@.len(),
            None => find_res(resource_views(list@), id@) is None,
        },
{
    let ghost rv = resource_views(list@);
    let n = list.len();
    let mut i: usize = 0;
    while i < n
        invariant
            rv == resource_views(list@),
            n == rv.len(),
            i <= n,
            forall|j: int| 0 <= j < i ==> !res_id_is(id@)(#[trigger] rv[j]),
        decreases n - i,
    {
        if crate::text::str_eq(list[i].id.as_str(), id) {
            proof {
                assert(is_first(rv, res_id_is(id@), i as int));
                lemma_first_index_is(rv, res_id_is(id@), i as int);
            }
            return Some(i);
        }
        i = i + 1;
    }
    proof {
        lemma_first_index_none(rv, res_id_is(id@));
    }
    None
}

fn clone_kind(k: &ResourceKind) -> (r: ResourceKind)
    ensures
        r@ == k@,
{
    match k {
        ResourceKind::Ssh => ResourceKind::Ssh,
        ResourceKind::Mysql => ResourceKind::Mysql,
        ResourceKind::Postgres => ResourceKind::Postgres,
        ResourceKind::Sqlite => ResourceKind::Sqlite,
        ResourceKind::Redis => ResourceKind::Redis,
        ResourceKind::Mongo => ResourceKind::Mongo,
        ResourceKind::Terminal => ResourceKind::Terminal,
        ResourceKind::Other(o) => ResourceKind::Other(o.clone()),
    }
}

impl ResourceRef {
    pub fn clone_ref(&self) -> (r: Self)
        ensures
            r@ == self@,
    {
        ResourceRef {
            id: self.id.clone(),
            kind: clone_kind(&self.kind),
            label: self.label.clone(),
            scopes: clone_scopes(&self.scopes),
        }
    }

    /// A resource with no scopes.
    pub fn new(id: &str, kind: ResourceKind, label: &str) -> (r: Self)
        ensures
            r@ == (ResourceView { id: id@, kind: kind@, label: label@, scopes: Seq::empty() }),
    {
        let r = ResourceRef { id: id.to_owned(), kind, label: label.to_owned(), scopes: Vec::new() };
        proof {
            assert(scope_views(r.scopes@) =~= Seq::<ScopeView>::empty());
        }
        r
    }

    /// The resource with one more scope at the end.
    pub fn with_scope(self, scope: ResourceScope) -> (r: Self)
        ensures
            r@ == (ResourceView { scopes: self@.scopes.push(scope@), ..self@ }),
    {
        let mut r = self;
        let ghost before = scope_views(r.scopes@);
        r.scopes.push(scope);
        proof {
            assert(scope_views(r.scopes@) =~= before.push(scope@));
        }
        r
    }
}

fn kind_eq(a: &ResourceKind, b: &ResourceKind) -> (r: bool)
    ensures
        r == (a@ == b@),
{
    match (a, b) {
        (ResourceKind::Ssh, ResourceKind::Ssh) => true,
        (ResourceKind::Mysql, ResourceKind::Mysql) => true,
        (ResourceKind::Postgres, ResourceKind::Postgres) => true,
        (ResourceKind::Sqlite, ResourceKind::Sqlite) => true,
        (ResourceKind::Redis, ResourceKind::Redis) => true,
        (ResourceKind::Mongo, ResourceKind::Mongo) => true,
        (ResourceKind::Terminal, ResourceKind::Terminal) => true,
        (ResourceKind::Other(x), ResourceKind::Other(y)) => crate::text::str_eq(
            x.as_str(),
            y.as_str(),
        ),
        _ => false,
    }
}

fn resource_eq(a: &ResourceRef, b: &ResourceRef) -> (r: bool)
    ensures
        r == (a@ == b@),
{
    crate::text::str_eq(a.id.as_str(), b.id.as_str()) && kind_eq(&a.kind, &b.kind)
        && crate::text::str_eq(a.label.as_str(), b.label.as_str()) && scopes_eq(&a.scopes, &b.scopes)
}

fn resources_eq(a: &Vec<ResourceRef>, b: &Vec<ResourceRef>) -> (r: bool)
    ensures
        r == (resource_views(a@) == resource_views(b@)),
{
    if a.len() != b.len() {
        proof {
            assert(resource_views(a@).len() != resource_views(b@).len());
        }
        return false;
    }
    let n = a.len();
    let mut i: usize = 0;
    while i < n
        invariant
            n == a@.len(),
            n == b@.len(),
            i <= n,
            forall|j: int| 0 <= j < i ==> a@[j]@ == b@[j]@,
        decreases n - i,
    {
        if !resource_eq(&a[i], &b[i]) {
            proof {
                assert(resource_views(a@)[i as int] != resource_views(b@)[i as int]);
            }
            return false;
        }
        i = i + 1;
    }
    proof {
        assert(resource_views(a@) =~= resource_views(b@));
    }
    true
}

fn opt_string_eq(a: &Option<String>, b: &Option<String>) -> (r: bool)
    ensures
        r == (crate::cards::opt_view(*a) == crate::cards::opt_view(*b)),
{
    match (a, b) {
        (Some(x), Some(y)) => crate::text::str_eq(x.as_str(), y.as_str()),
        (None, None) => true,
        _ => false,
    }
}

/// Adding a catalog resource to the pool: nothing when it is already there
/// or unknown; otherwise it joins at the end and becomes the default target
/// when there was none.  The flag says whether the pool changed.
pub open spec fn pool_added(pool: PoolView, catalog: Seq<ResourceView>, id: Seq<char>) -> (
    PoolView,
    bool,
) {
    if find_res(pool.resources, id) is Some {
        (pool, false)
    } else {
        match find_res(catalog, id) {
            None => (pool, false),
            Some(j) => (
                PoolView {
                    resources: pool.resources.push(catalog[j]),
                    current: if pool.current is None {
                        Some(id)
                    } else {
                        pool.current
                    },
                },
                true,
            ),
        }
    }
}

pub fn add_resource_to_pool(pool: &mut ResourceContext, catalog: &Vec<ResourceRef>, id: &str) -> (r:
    bool)
    ensures
        (final(pool)@, r) == pool_added(old(pool)@, resource_views(catalog@), id@),
{
    if find_resource(&pool.resources, id).is_some() {
        return false;
    }
    match find_resource(catalog, id) {
        None => false,
        Some(j) => {
            let ghost before = pool.resources@;
            pool.resources.push(catalog[j].clone_ref());
            proof {
                assert(resource_views(pool.resources@) =~= resource_views(before).push(
                    catalog@[j as int]@,
                ));
            }
            if pool.current.is_none() {
                pool.current = Some(id.to_owned());
            }
            true
        },
    }
}

pub open spec fn res_id_other_than(id: Seq<char>) -> spec_fn(ResourceView) -> bool {
    |r: ResourceView| r.id != id
}

/// Removing a resource from the pool: every entry with the id goes; when
/// it was the default target, the first remaining resource becomes it.
pub open spec fn pool_removed(pool: PoolView, id: Seq<char>) -> (PoolView, bool) {
    let kept = pool.resources.filter(res_id_other_than(id));
    if kept.len() == pool.resources.len() {
        (pool, false)
    } else {
        (
            PoolView {
                resources: kept,
                current: if pool.current == Some(id) {
                    if kept.len() > 0 {
                        Some(kept[0].id)
                    } else {
                        None
                    }
                } else {
                    pool.current
                },
            },
            true,
        )
    }
}

proof fn lemma_filter_keeps_all<A>(s: Seq<A>, pred: spec_fn(A) -> bool)
    requires
        forall|j: int| 0 <= j < s.len() ==> pred(#[trigger] s[j]),
    ensures
        s.filter(pred) == s,
    decreases s.len(),
{
    reveal(Seq::filter);
    if s.len() > 0 {
        let rest = s.drop_last();
        assert forall|j: int| 0 <= j < rest.len() implies pred(#[trigger] rest[j]) by {
            assert(rest[j] == s[j]);
        }
        lemma_filter_keeps_all(rest, pred);
        assert(pred(s[s.len() - 1]));
        assert(rest.push(s.last()) =~= s);
    }
}

/// Removing a resource reports whether the pool held it, drops exactly the
/// entries with its id and keeps every other one, and moves the default
/// target only when the removed resource was the default: then the target
/// becomes a remaining resource, or none when the pool is left empty.
pub proof fn lemma_remove_resource_keeps_others(pool: PoolView, id: Seq<char>)
    ensures
        pool_removed(pool, id).1 <==> exists|j: int|
            0 <= j < pool.resources.len() && (#[trigger] pool.resources[j]).id == id,
        forall|r: ResourceView|
            #[trigger] pool_removed(pool, id).0.resources.contains(r) <==> (
            pool.resources.contains(r) && r.id != id),
        forall|j: int|
            0 <= j < pool.resources.len() && (#[trigger] pool.resources[j]).id == id && (forall|
                k: int,
            | 0 <= k < pool.resources.len() && pool.resources[k].id == id ==> k == j)
                ==> pool_removed(pool, id).0.resources == pool.resources.remove(j),
        pool.current != Some(id) ==> pool_removed(pool, id).0.current == pool.current,
        pool.current == Some(id) && pool_removed(pool, id).1 ==> match pool_removed(
            pool,
            id,
        ).0.current {
            Some(c) => c != id && exists|k: int|
                0 <= k < pool_removed(pool, id).0.resources.len() && (#[trigger] pool_removed(
                    pool,
                    id,
                ).0.resources[k]).id == c,
            None => pool_removed(pool, id).0.resources.len() == 0,
        },
{
    let pred = res_id_other_than(id);
    let rs = pool.resources;
    let kept = rs.filter(pred);
    broadcast use vstd::seq_lib::group_filter_ensures;

    if exists|j: int| 0 <= j < rs.len() && (#[trigger] rs[j]).id == id {
        let j = choose|j: int| 0 <= j < rs.len() && (#[trigger] rs[j]).id == id;
        if kept.len() == rs.len() {
            assert(!pred(rs[j]));
            lemma_filter_same_len(rs, pred);
        }
    } else {
        assert forall|j: int| 0 <= j < rs.len() implies pred(#[trigger] rs[j]) by {}
        lemma_filter_keeps_all(rs, pred);
    }
    assert forall|r: ResourceView|
        #[trigger] pool_removed(pool, id).0.resources.contains(r) <==> (rs.contains(r) && r.id
            != id) by {
        if pool_removed(pool, id).1 {
            if kept.contains(r) {
                rs.lemma_filter_contains_rev(pred, r);
                let k = choose|k: int| 0 <= k < kept.len() && kept[k] == r;
                assert(pred(kept[k]));
            }
            if rs.contains(r) && r.id != id {
                let k = choose|k: int| 0 <= k < rs.len() && rs[k] == r;
                rs.lemma_filter_contains(pred, k);
            }
        } else {
            if rs.contains(r) {
                let k = choose|k: int| 0 <= k < rs.len() && rs[k] == r;
                assert(pred(rs[k]));
            }
        }
    }
    assert forall|j: int|
        0 <= j < rs.len() && (#[trigger] rs[j]).id == id && (forall|k: int|
            0 <= k < rs.len() && rs[k].id == id ==> k == j) implies pool_removed(
        pool,
        id,
    ).0.resources == rs.remove(j) by {
        lemma_filter_drops_one(rs, pred, j);
        assert(kept.len() != rs.len());
    }
    if pool.current == Some(id) && pool_removed(pool, id).1 && kept.len() > 0 {
        let np = pool_removed(pool, id).0;
        assert(pred(kept[0]));
        assert(np.resources[0].id == kept[0].id);
    }
}

proof fn lemma_filter_drops_one<A>(s: Seq<A>, pred: spec_fn(A) -> bool, j: int)
    requires
        0 <= j < s.len(),
        !pred(s[j]),
        forall|k: int| 0 <= k < s.len() && k != j ==> pred(#[trigger] s[k]),
    ensures
        s.filter(pred) == s.remove(j),
    decreases s.len(),
{
    reveal(Seq::filter);
    let rest = s.drop_last();
    if j == s.len() - 1 {
        assert forall|k: int| 0 <= k < rest.len() implies pred(#[trigger] rest[k]) by {
            assert(rest[k] == s[k]);
        }
        lemma_filter_keeps_all(rest, pred);
        assert(s.filter(pred) == rest.filter(pred));
        assert(rest =~= s.remove(j));
    } else {
        assert forall|k: int| 0 <= k < rest.len() && k != j implies pred(#[trigger] rest[k]) by {
            assert(rest[k] == s[k]);
        }
        assert(rest[j] == s[j]);
        lemma_filter_drops_one(rest, pred, j);
        assert(pred(s[s.len() - 1]));
        assert(s.filter(pred) == rest.filter(pred).push(s.last()));
        assert(rest.remove(j).push(s.last()) =~= s.remove(j));
    }
}

/// Adding a catalog resource that the pool lacks puts it at the end of the
/// pool, and the pool then has a default target; removing it again gives
/// back the resources the pool had, and the whole pool when its default
/// target was another resource (or it had neither resources nor target).
/// Adding a resource already in the pool, or one the catalog lacks,
/// changes nothing.
pub proof fn lemma_add_then_remove(pool: PoolView, catalog: Seq<ResourceView>, id: Seq<char>)
    ensures
        find_res(pool.resources, id) is None && find_res(catalog, id) is Some ==> ({
            let added = pool_added(pool, catalog, id);
            let back = pool_removed(added.0, id);
            &&& added.1
            &&& added.0.resources.len() == pool.resources.len() + 1
            &&& added.0.resources.last().id == id
            &&& added.0.resources.drop_last() == pool.resources
            &&& added.0.current is Some
            &&& back.1
            &&& back.0.resources == pool.resources
            &&& (match pool.current {
                Some(c) => c != id,
                None => pool.resources.len() == 0,
            }) ==> back.0 == pool
        }),
        find_res(pool.resources, id) is Some || find_res(catalog, id) is None ==> pool_added(
            pool,
            catalog,
            id,
        ) == (pool, false),
{
    let rs = pool.resources;
    if find_res(rs, id) is None && find_res(catalog, id) is Some {
        crate::transcript_model::lemma_first_index_found(catalog, res_id_is(id));
        let j = find_res(catalog, id)->0;
        let x = catalog[j];
        assert(x.id == id);
        let pred = res_id_other_than(id);
        assert forall|k: int| 0 <= k < rs.len() implies pred(#[trigger] rs[k]) by {
            if rs[k].id == id {
                crate::transcript_model::lemma_first_index_is_some(rs, res_id_is(id), k);
            }
        }
        lemma_filter_keeps_all(rs, pred);
        let grown = rs.push(x);
        assert(grown.drop_last() =~= rs);
        reveal(Seq::filter);
        assert(grown.filter(pred) == rs.filter(pred));
    }
}

proof fn lemma_filter_same_len<A>(s: Seq<A>, pred: spec_fn(A) -> bool)
    requires
        s.filter(pred).len() == s.len(),
    ensures
        forall|j: int| 0 <= j < s.len() ==> pred(#[trigger] s[j]),
    decreases s.len(),
{
    reveal(Seq::filter);
    if s.len() > 0 {
        let rest = s.drop_last();
        rest.lemma_filter_len(pred);
        if !pred(s.last()) {
            assert(s.filter(pred) == rest.filter(pred));
        } else {
            assert(s.filter(pred) == rest.filter(pred).push(s.last()));
            lemma_filter_same_len(rest, pred);
            assert forall|j: int| 0 <= j < s.len() implies pred(#[trigger] s[j]) by {
                if j < s.len() - 1 {
                    assert(s[j] == rest[j]);
                }
            }
        }
    }
}

pub fn remove_resource_from_pool(pool: &mut ResourceContext, id: &str) -> (r: bool)
    ensures
        (final(pool)@, r) == pool_removed(old(pool)@, id@),
{
    let ghost before = resource_views(pool.resources@);
    let ghost pred = res_id_other_than(id@);
    let mut kept: Vec<ResourceRef> = Vec::new();
    let n = pool.resources.len();
    let mut i: usize = 0;
    proof {
        reveal(Seq::filter);
    }
    while i < n
        invariant
            n == pool.resources@.len(),
            before == resource_views(pool.resources@),
            pred == res_id_other_than(id@),
            i <= n,
            resource_views(kept@) == before.take(i as int).filter(pred),
        decreases n - i,
    {
        let keep = !crate::text::str_eq(pool.resources[i].id.as_str(), id);
        let ghost prev = kept@;
        if keep {
            kept.push(pool.resources[i].clone_ref());
        }
        proof {
            reveal(Seq::filter);
            assert(before.take(i + 1).drop_last() =~= before.take(i as int));
            assert(before.take(i + 1).last() == before[i as int]);
            if keep {
                assert(resource_views(kept@) =~= resource_views(prev).push(before[i as int]));
            } else {
                assert(resource_views(kept@) =~= resource_views(prev));
            }
        }
        i = i + 1;
    }
    proof {
        assert(before.take(n as int) =~= before);
    }
    if kept.len() == n {
        return false;
    }
    let was_current = match &pool.current {
        Some(c) => crate::text::str_eq(c.as_str(), id),
        None => false,
    };
    if was_current {
        pool.current = if kept.len() > 0 {
            Some(kept[0].id.clone())
        } else {
            None
        };
    }
    pool.resources = kept;
    true
}

/// The pool takes a new list of resources (nothing when the list is
/// empty); the default target stays when it is in the list, else the first
/// resource becomes it.  The flag says whether anything changed.
pub open spec fn pool_replaced(pool: PoolView, resources: Seq<ResourceView>) -> (PoolView, bool) {
    if resources.len() == 0 {
        (pool, false)
    } else {
        let next_current = match pool.current {
            Some(c) => if find_res(resources, c) is Some {
                Some(c)
            } else {
                Some(resources[0].id)
            },
            None => Some(resources[0].id),
        };
        let changed = pool.resources != resources || pool.current != next_current;
        if changed {
            (PoolView { resources, current: next_current }, true)
        } else {
            (pool, false)
        }
    }
}

/// Giving the pool a new, non-empty list of resources makes the list the
/// pool, keeps the default target when the list has it and otherwise makes
/// the list's first resource the target, so the target is always one of the
/// list; the flag says whether anything changed.  An empty list changes
/// nothing.
pub proof fn lemma_replaced_pool_targets_a_member(pool: PoolView, resources: Seq<ResourceView>)
    ensures
        resources.len() == 0 ==> pool_replaced(pool, resources) == (pool, false),
        resources.len() > 0 ==> ({
            let (r, changed) = pool_replaced(pool, resources);
            &&& r.resources == resources
            &&& r.current matches Some(c) && find_res(resources, c) is Some
            &&& (pool.current matches Some(c) && find_res(resources, c) is Some) ==> r.current
                == pool.current
            &&& changed <==> (pool.resources != resources || pool.current != r.current)
        }),
{
    if resources.len() > 0 {
        assert(res_id_is(resources[0].id)(resources[0]));
        crate::transcript_model::lemma_first_index_is_some(resources, res_id_is(resources[0].id), 0);
    }
}

pub fn replace_pool_resources(pool: &mut ResourceContext, resources: Vec<ResourceRef>) -> (r: bool)
    ensures
        (final(pool)@, r) == pool_replaced(old(pool)@, resource_views(resources@)),
{
    if resources.len() == 0 {
        return false;
    }
    let next_current = match &pool.current {
        Some(c) => if find_resource(&resources, c.as_str()).is_some() {
            Some(c.clone())
        } else {
            Some(resources[0].id.clone())
        },
        None => Some(resources[0].id.clone()),
    };
    let changed = !resources_eq(&pool.resources, &resources) || !opt_string_eq(
        &pool.current,
        &next_current,
    );
    if changed {
        pool.resources = resources;
        pool.current = next_current;
    }
    changed
}

pub open spec fn kind_filter(k: KindView, source: Seq<char>) -> bool {
    if source == "ssh"@ {
        k is Ssh
    } else if source == "db"@ {
        is_database(k)
    } else if source == "redis"@ {
        k is Redis
    } else {
        k is Terminal
    }
}

pub open spec fn kind_pred(source: Seq<char>) -> spec_fn(ResourceView) -> bool {
    |r: ResourceView| kind_filter(r.kind, source)
}

fn kind_matches(kind: &ResourceKind, source: &str) -> (r: bool)
    ensures
        r == kind_filter(kind@, source@),
{
    if crate::text::str_eq(source, "ssh") {
        match kind {
            ResourceKind::Ssh => true,
            _ => false,
        }
    } else if crate::text::str_eq(source, "db") {
        is_database_kind(kind)
    } else if crate::text::str_eq(source, "redis") {
        match kind {
            ResourceKind::Redis => true,
            _ => false,
        }
    } else {
        match kind {
            ResourceKind::Terminal => true,
            _ => false,
        }
    }
}

/// The catalog resources of a type source (`ssh`, `db`, `redis`, `terminal`).
pub fn resources_matching(catalog: &Vec<ResourceRef>, source: &str) -> (r: Vec<ResourceRef>)
    ensures
        resource_views(r@) == resource_views(catalog@).filter(kind_pred(source@)),
{
    let ghost before = resource_views(catalog@);
    let ghost pred = kind_pred(source@);
    let mut out: Vec<ResourceRef> = Vec::new();
    let n = catalog.len();
    let mut i: usize = 0;
    proof {
        reveal(Seq::filter);
    }
    while i < n
        invariant
            n == catalog@.len(),
            before == resource_views(catalog@),
            pred == kind_pred(source@),
            i <= n,
            resource_views(out@) == before.take(i as int).filter(pred),
        decreases n - i,
    {
        let keep = kind_matches(&catalog[i].kind, source);
        let ghost prev = out@;
        if keep {
            out.push(catalog[i].clone_ref());
        }
        proof {
            reveal(Seq::filter);
            assert(before.take(i + 1).drop_last() =~= before.take(i as int));
            assert(before.take(i + 1).last() == before[i as int]);
            if keep {
                assert(resource_views(out@) =~= resource_views(prev).push(before[i as int]));
            } else {
                assert(resource_views(out@) =~= resource_views(prev));
            }
        }
        i = i + 1;
    }
    proof {
        assert(before.take(n as int) =~= before);
    }
    out
}

pub open spec fn is_type_source(source: Seq<char>) -> bool {
    source == "ssh"@ || source == "db"@ || source == "redis"@ || source == "terminal"@
}

/// Filling the pool from a source: `current` keeps only the default target,
/// `all` takes the whole catalog, a type source the catalog's resources of
/// that type; other sources change nothing.
pub open spec fn source_applied(pool: PoolView, catalog: Seq<ResourceView>, source: Seq<char>) -> (
    PoolView,
    bool,
) {
    if source == "current"@ {
        match current_of(pool) {
            Some(i) => pool_replaced(pool, seq![pool.resources[i]]),
            None => (pool, false),
        }
    } else if source == "all"@ {
        pool_replaced(pool, catalog)
    } else if is_type_source(source) {
        pool_replaced(pool, catalog.filter(kind_pred(source)))
    } else {
        (pool, false)
    }
}

pub fn apply_resource_source(pool: &mut ResourceContext, catalog: &Vec<ResourceRef>, source: &str) -> (r:
    bool)
    ensures
        (final(pool)@, r) == source_applied(old(pool)@, resource_views(catalog@), source@),
{
    if crate::text::str_eq(source, "current") {
        let found = match &pool.current {
            Some(c) => find_resource(&pool.resources, c.as_str()),
            None => None,
        };
        match found {
            Some(i) => {
                let mut one: Vec<ResourceRef> = Vec::new();
                one.push(pool.resources[i].clone_ref());
                proof {
                    assert(resource_views(one@) =~= seq![resource_views(pool.resources@)[i as int]]);
                }
                replace_pool_resources(pool, one)
            },
            None => false,
        }
    } else if crate::text::str_eq(source, "all") {
        let mut all: Vec<ResourceRef> = Vec::new();
        let n = catalog.len();
        let mut i: usize = 0;
        while i < n
            invariant
                n == catalog@.len(),
                i <= n,
                resource_views(all@) == resource_views(catalog@).take(i as int),
            decreases n - i,
        {
            let ghost prev = all@;
            all.push(catalog[i].clone_ref());
            proof {
                assert(resource_views(all@) =~= resource_views(prev).push(catalog@[i as int]@));
                assert(resource_views(catalog@).take(i + 1) =~= resource_views(catalog@).take(
                    i as int,
                ).push(catalog@[i as int]@));
            }
            i = i + 1;
        }
        proof {
            assert(resource_views(catalog@).take(n as int) =~= resource_views(catalog@));
        }
        replace_pool_resources(pool, all)
    } else if crate::text::str_eq(source, "ssh") || crate::text::str_eq(source, "db")
        || crate::text::str_eq(source, "redis") || crate::text::str_eq(source, "terminal") {
        let matching = resources_matching(catalog, source);
        replace_pool_resources(pool, matching)
    } else {
        false
    }
}

/// The pool after the catalog resources mentioned in a message join it (in
/// mention order, skipping those already in it or unknown).
pub open spec fn mentions_joined(
    rs: Seq<ResourceView>,
    catalog: Seq<ResourceView>,
    mentions: Seq<Seq<char>>,
) -> Seq<ResourceView>
    decreases mentions.len(),
{
    if mentions.len() == 0 {
        rs
    } else {
        let prev = mentions_joined(rs, catalog, mentions.drop_last());
        let id = mentions.last();
        if find_res(prev, id) is None && find_res(catalog, id) is Some {
            prev.push(catalog[find_res(catalog, id)->0])
        } else {
            prev
        }
    }
}

/// Mentioned resources join the pool and the first mentioned one (when it
/// is in the pool) becomes the default target.  The flag says whether the
/// pool changed.
pub open spec fn mentions_applied(pool: PoolView, catalog: Seq<ResourceView>, mentions: Seq<Seq<char>>) -> (
    PoolView,
    bool,
) {
    let rs = mentions_joined(pool.resources, catalog, mentions);
    let retarget = mentions.len() > 0 && find_res(rs, mentions[0]) is Some && pool.current != Some(
        mentions[0],
    );
    (
        PoolView {
            resources: rs,
            current: if retarget {
                Some(mentions[0])
            } else {
                pool.current
            },
        },
        rs.len() != pool.resources.len() || retarget,
    )
}

proof fn lemma_mentions_grow(rs: Seq<ResourceView>, catalog: Seq<ResourceView>, mentions: Seq<Seq<char>>)
    ensures
        mentions_joined(rs, catalog, mentions).len() >= rs.len(),
        mentions_joined(rs, catalog, mentions).take(rs.len() as int) == rs,
    decreases mentions.len(),
{
    if mentions.len() > 0 {
        lemma_mentions_grow(rs, catalog, mentions.drop_last());
        let prev = mentions_joined(rs, catalog, mentions.drop_last());
        assert(prev.push(catalog[0]).take(rs.len() as int) =~= prev.take(rs.len() as int));
        let id = mentions.last();
        if find_res(prev, id) is None && find_res(catalog, id) is Some {
            let j = find_res(catalog, id)->0;
            assert(prev.push(catalog[j]).take(rs.len() as int) =~= prev.take(rs.len() as int));
        }
    }
}

proof fn lemma_found_after_push(rs: Seq<ResourceView>, x: ResourceView, id: Seq<char>)
    requires
        find_res(rs, id) is Some,
    ensures
        find_res(rs.push(x), id) is Some,
{
    crate::transcript_model::lemma_first_index_found(rs, res_id_is(id));
    let i = find_res(rs, id)->0;
    assert(rs.push(x)[i] == rs[i]);
    crate::transcript_model::lemma_first_index_is_some(rs.push(x), res_id_is(id), i);
}

proof fn lemma_mentions_found(rs: Seq<ResourceView>, catalog: Seq<ResourceView>, mentions: Seq<Seq<char>>)
    ensures
        forall|k: int|
            0 <= k < mentions.len() && find_res(catalog, mentions[k]) is Some ==> find_res(
                mentions_joined(rs, catalog, mentions),
                #[trigger] mentions[k],
            ) is Some,
    decreases mentions.len(),
{
    if mentions.len() > 0 {
        let init = mentions.drop_last();
        lemma_mentions_found(rs, catalog, init);
        let prev = mentions_joined(rs, catalog, init);
        let id = mentions.last();
        let joined = mentions_joined(rs, catalog, mentions);
        assert forall|k: int|
            0 <= k < mentions.len() && find_res(catalog, mentions[k]) is Some implies find_res(
            joined,
            #[trigger] mentions[k],
        ) is Some by {
            if k < mentions.len() - 1 {
                assert(init[k] == mentions[k]);
                if joined != prev {
                    lemma_found_after_push(prev, catalog[find_res(catalog, id)->0], mentions[k]);
                }
            } else if find_res(prev, id) is None {
                crate::transcript_model::lemma_first_index_found(catalog, res_id_is(id));
                let j = find_res(catalog, id)->0;
                assert(joined[prev.len() as int] == catalog[j]);
                crate::transcript_model::lemma_first_index_is_some(
                    joined,
                    res_id_is(id),
                    prev.len() as int,
                );
            }
        }
    }
}

/// The resources mentioned in a message join the pool behind the ones it
/// already had, which stay as they were: afterwards every mentioned
/// resource that the catalog knows is in the pool, and the first mentioned
/// one, when the catalog knows it, is the default target.  With no
/// mentions the pool is unchanged.
pub proof fn lemma_mentions_join_pool(
    pool: PoolView,
    catalog: Seq<ResourceView>,
    mentions: Seq<Seq<char>>,
)
    ensures
        ({
            let r = mentions_applied(pool, catalog, mentions).0;
            &&& r.resources.len() >= pool.resources.len()
            &&& r.resources.take(pool.resources.len() as int) == pool.resources
            &&& forall|k: int|
                0 <= k < mentions.len() && find_res(catalog, mentions[k]) is Some ==> find_res(
                    r.resources,
                    #[trigger] mentions[k],
                ) is Some
            &&& mentions.len() > 0 && find_res(catalog, mentions[0]) is Some ==> r.current == Some(
                mentions[0],
            )
            &&& mentions.len() == 0 ==> mentions_applied(pool, catalog, mentions) == (pool, false)
        }),
{
    lemma_mentions_grow(pool.resources, catalog, mentions);
    lemma_mentions_found(pool.resources, catalog, mentions);
    if mentions.len() > 0 && find_res(catalog, mentions[0]) is Some {
        assert(find_res(mentions_joined(pool.resources, catalog, mentions), mentions[0]) is Some);
    }
}

pub fn apply_mentioned_resources(
    pool: &mut ResourceContext,
    catalog: &Vec<ResourceRef>,
    mentions: &Vec<String>,
) -> (r: bool)
    ensures
        (final(pool)@, r) == mentions_applied(
            old(pool)@,
            resource_views(catalog@),
            string_views(mentions@),
        ),
{
    let ghost ms = string_views(mentions@);
    let ghost cv = resource_views(catalog@);
    let ghost start = resource_views(pool.resources@);
    let start_len = pool.resources.len();
    let n = mentions.len();
    let mut i: usize = 0;
    proof {
        assert(ms.take(0) =~= Seq::<Seq<char>>::empty());
    }
    while i < n
        invariant
            ms == string_views(mentions@),
            cv == resource_views(catalog@),
            n == ms.len(),
            i <= n,
            resource_views(pool.resources@) == mentions_joined(start, cv, ms.take(i as int)),
            pool.current == old(pool).current,
            start_len == start.len(),
        decreases n - i,
    {
        let id = mentions[i].as_str();
        proof {
            assert(ms.take(i + 1).drop_last() =~= ms.take(i as int));
            assert(ms.take(i + 1).last() == id@);
        }
        if find_resource(&pool.resources, id).is_none() {
            match find_resource(catalog, id) {
                Some(j) => {
                    let ghost prev = pool.resources@;
                    pool.resources.push(catalog[j].clone_ref());
                    proof {
                        assert(resource_views(pool.resources@) =~= resource_views(prev).push(
                            cv[j as int],
                        ));
                    }
                },
                None => {},
            }
        }
        i = i + 1;
    }
    proof {
        assert(ms.take(n as int) =~= ms);
        lemma_mentions_grow(start, cv, ms);
    }
    let grew = pool.resources.len() != start_len;
    let mut retarget = false;
    if n > 0 {
        let first = mentions[0].as_str();
        if find_resource(&pool.resources, first).is_some() {
            let same = match &pool.current {
                Some(c) => crate::text::str_eq(c.as_str(), first),
                None => false,
            };
            if !same {
                pool.current = Some(first.to_owned());
                retarget = true;
            }
        }
    }
    grew || retarget
}

/// Pool entries take the catalog's current version of their resource.
pub open spec fn refreshed(rs: Seq<ResourceView>, catalog: Seq<ResourceView>) -> Seq<ResourceView> {
    rs.map_values(
        |r: ResourceView|
            match find_res(catalog, r.id) {
                Some(j) => catalog[j],
                None => r,
            },
    )
}

/// Updates the pool's resources from the catalog; `true` when any changed.
pub fn refresh_pool_resource_metadata(pool: &mut ResourceContext, catalog: &Vec<ResourceRef>) -> (r:
    bool)
    ensures
        final(pool)@ == (PoolView {
            resources: refreshed(old(pool)@.resources, resource_views(catalog@)),
            ..old(pool)@
        }),
        r == (refreshed(old(pool)@.resources, resource_views(catalog@)) != old(pool)@.resources),
{
    let ghost before = resource_views(pool.resources@);
    let ghost cv = resource_views(catalog@);
    let ghost target = refreshed(before, cv);
    let mut out: Vec<ResourceRef> = Vec::new();
    let mut changed = false;
    let n = pool.resources.len();
    let mut i: usize = 0;
    while i < n
        invariant
            n == pool.resources@.len(),
            before == resource_views(pool.resources@),
            cv == resource_views(catalog@),
            target == refreshed(before, cv),
            target.len() == n,
            i <= n,
            resource_views(out@) == target.take(i as int),
            changed == (exists|w: int| 0 <= w < i && #[trigger] target[w] != before[w]),
        decreases n - i,
    {
        let current = &pool.resources[i];
        let next = match find_resource(catalog, current.id.as_str()) {
            Some(j) => catalog[j].clone_ref(),
            None => current.clone_ref(),
        };
        proof {
            assert(before[i as int] == current@);
            assert(target[i as int] == next@);
        }
        let differs = !resource_eq(current, &next);
        let ghost prev = out@;
        out.push(next);
        proof {
            assert(resource_views(out@) =~= resource_views(prev).push(next@));
            assert(target.take(i + 1) =~= target.take(i as int).push(target[i as int]));
            if differs {
                assert(target[i as int] != before[i as int]);
            }
            if !changed && !differs {
                assert forall|w: int| 0 <= w < i + 1 implies #[trigger] target[w] == before[w] by {
                    if w < i {
                        assert(!(target[w] != before[w]));
                    }
                }
            }
        }
        changed = changed || differs;
        i = i + 1;
    }
    proof {
        assert(target.take(n as int) =~= target);
        if !changed {
            assert(target =~= before);
        } else {
            let w = choose|w: int| 0 <= w < n && #[trigger] target[w] != before[w];
            assert(target[w] != before[w]);
        }
    }
    pool.resources = out;
    changed
}

impl ResourceContext {
    /// An empty pool without a default target.
    pub fn new() -> (r: Self)
        ensures
            r@ == (PoolView { resources: Seq::empty(), current: None }),
    {
        let r = ResourceContext { resources: Vec::new(), current: None };
        proof {
            assert(r@.resources =~= Seq::<ResourceView>::empty());
        }
        r
    }

    /// The pool with one more resource; the first one added becomes the
    /// default target.
    pub fn with_resource(self, resource: ResourceRef) -> (r: Self)
        ensures
            r@ == (PoolView {
                resources: self@.resources.push(resource@),
                current: if self@.current is None {
                    Some(resource@.id)
                } else {
                    self@.current
                },
            }),
    {
        let mut pool = self;
        let ghost before = pool.resources@;
        if pool.current.is_none() {
            pool.current = Some(resource.id.clone());
        }
        pool.resources.push(resource);
        proof {
            assert(resource_views(pool.resources@) =~= resource_views(before).push(
                pool.resources@.last()@,
            ));
        }
        pool
    }

    /// The default target, when it is in the pool.
    pub fn current_resource(&self) -> (r: Option<&ResourceRef>)
        ensures
            match current_of(self@) {
                Some(i) => r is Some && r->0@ == self@.resources[i],
                None => r is None,
            },
    {
        match &self.current {
            Some(c) => match find_resource(&self.resources, c.as_str()) {
                Some(i) => Some(&self.resources[i]),
                None => None,
            },
            None => None,
        }
    }
}

pub open spec fn ids_of(rs: Seq<ResourceView>) -> Seq<Seq<char>> {
    rs.map_values(|r: ResourceView| r.id)
}

/// The set of ids of some resources.
pub open spec fn id_set(rs: Seq<ResourceView>) -> Set<Seq<char>> {
    ids_of(rs).to_set()
}

fn resource_ids(rs: &Vec<ResourceRef>) -> (r: Vec<String>)
    ensures
        string_views(r@) == ids_of(resource_views(rs@)),
{
    let mut out: Vec<String> = Vec::new();
    let n = rs.len();
    let mut i: usize = 0;
    while i < n
        invariant
            n == rs@.len(),
            i <= n,
            out@.len() == i,
            forall|j: int| 0 <= j < i ==> (#[trigger] out@[j])@ == rs@[j].id@,
        decreases n - i,
    {
        out.push(rs[i].id.clone());
        i = i + 1;
    }
    proof {
        assert(string_views(out@) =~= ids_of(resource_views(rs@)));
    }
    out
}

fn contains_id(ids: &Vec<String>, id: &str) -> (r: bool)
    ensures
        r == string_views(ids@).contains(id@),
{
    let n = ids.len();
    let mut i: usize = 0;
    while i < n
        invariant
            n == ids@.len(),
            i <= n,
            forall|j: int| 0 <= j < i ==> ids@[j]@ != id@,
        decreases n - i,
    {
        if crate::text::str_eq(ids[i].as_str(), id) {
            proof {
                assert(string_views(ids@)[i as int] == id@);
            }
            return true;
        }
        i = i + 1;
    }
    proof {
        if string_views(ids@).contains(id@) {
            let j = choose|j: int| 0 <= j < ids@.len() && string_views(ids@)[j] == id@;
            assert(ids@[j]@ == id@);
        }
    }
    false
}

fn all_contained(a: &Vec<String>, b: &Vec<String>) -> (r: bool)
    ensures
        r == (forall|x: Seq<char>| string_views(a@).contains(x) ==> string_views(b@).contains(x)),
{
    let n = a.len();
    let mut i: usize = 0;
    while i < n
        invariant
            n == a@.len(),
            i <= n,
            forall|j: int| 0 <= j < i ==> string_views(b@).contains(#[trigger] string_views(a@)[j]),
        decreases n - i,
    {
        if !contains_id(b, a[i].as_str()) {
            proof {
                assert(string_views(a@)[i as int] == a@[i as int]@);
                assert(string_views(a@).contains(a@[i as int]@));
            }
            return false;
        }
        proof {
            assert(string_views(a@)[i as int] == a@[i as int]@);
        }
        i = i + 1;
    }
    proof {
        assert forall|x: Seq<char>| string_views(a@).contains(x) implies string_views(b@).contains(
            x,
        ) by {
            let j = choose|j: int| 0 <= j < a@.len() && string_views(a@)[j] == x;
            assert(string_views(b@).contains(string_views(a@)[j]));
        }
    }
    true
}

/// The two lists hold the same ids (as sets).
fn same_ids(a: &Vec<String>, b: &Vec<String>) -> (r: bool)
    ensures
        r == (string_views(a@).to_set() == string_views(b@).to_set()),
{
    let ab = all_contained(a, b);
    let ba = all_contained(b, a);
    proof {
        if ab && ba {
            assert(string_views(a@).to_set() =~= string_views(b@).to_set());
        }
        if !ab {
            let x = choose|x: Seq<char>| string_views(a@).contains(x) && !string_views(b@).contains(x);
            assert(string_views(a@).to_set().contains(x));
            assert(!string_views(b@).to_set().contains(x));
        }
        if !ba {
            let x = choose|x: Seq<char>| string_views(b@).contains(x) && !string_views(a@).contains(x);
            assert(string_views(b@).to_set().contains(x));
            assert(!string_views(a@).to_set().contains(x));
        }
    }
    ab && ba
}

proof fn lemma_push_to_set(s: Seq<Seq<char>>, x: Seq<char>)
    ensures
        s.push(x).to_set() == s.to_set().insert(x),
{
    let p = s.push(x);
    assert forall|y: Seq<char>| #[trigger] p.contains(y) implies s.contains(y) || y == x by {
        let j = choose|j: int| 0 <= j < p.len() && #[trigger] p[j] == y;
        if j < s.len() {
            assert(s[j] == y);
        }
    }
    assert forall|y: Seq<char>| #[trigger] s.contains(y) implies p.contains(y) by {
        let j = choose|j: int| 0 <= j < s.len() && #[trigger] s[j] == y;
        assert(p[j] == y);
    }
    assert(p[s.len() as int] == x);
    assert(p.to_set() =~= s.to_set().insert(x));
}

/// How many different ids a list holds.
fn distinct_count(ids: &Vec<String>) -> (r: usize)
    ensures
        r == string_views(ids@).to_set().len(),
{
    let ghost sv = string_views(ids@);
    let mut uniq: Vec<String> = Vec::new();
    let n = ids.len();
    let mut i: usize = 0;
    proof {
        assert(string_views(uniq@).to_set() =~= sv.take(0).to_set());
    }
    while i < n
        invariant
            sv == string_views(ids@),
            n == sv.len(),
            i <= n,
            uniq@.len() <= i,
            string_views(uniq@).no_duplicates(),
            string_views(uniq@).to_set() == sv.take(i as int).to_set(),
        decreases n - i,
    {
        let id = ids[i].as_str();
        let ghost prev = string_views(uniq@);
        proof {
            assert(sv.take(i + 1) =~= sv.take(i as int).push(id@));
        }
        if !contains_id(&uniq, id) {
            uniq.push(id.to_owned());
            proof {
                assert(string_views(uniq@) =~= prev.push(id@));
                lemma_push_to_set(prev, id@);
                lemma_push_to_set(sv.take(i as int), id@);
                assert(string_views(uniq@).to_set() =~= sv.take(i + 1).to_set());
                assert forall|a: int, b: int|
                    0 <= a < b < string_views(uniq@).len() implies string_views(uniq@)[a]
                    != string_views(uniq@)[b] by {
                    if b == prev.len() {
                        assert(prev.contains(prev[a]));
                    }
                }
            }
        } else {
            proof {
                lemma_push_to_set(sv.take(i as int), id@);
                assert(prev.to_set().contains(id@));
                assert(sv.take(i as int).to_set().insert(id@) =~= sv.take(i as int).to_set());
            }
        }
        i = i + 1;
    }
    proof {
        assert(sv.take(n as int) =~= sv);
        string_views(uniq@).unique_seq_to_set();
    }
    uniq.len()
}

/// The pool holds exactly its default target.
pub open spec fn current_source_selected(pool: PoolView) -> bool {
    pool.resources.len() == 1 && pool.current == Some(pool.resources[0].id)
}

/// The pool holds exactly the catalog's resources.
pub open spec fn all_source_selected(pool: PoolView, catalog: Seq<ResourceView>) -> bool {
    !current_source_selected(pool) && catalog.len() > 0 && id_set(pool.resources) == id_set(
        catalog,
    )
}

/// The pool holds exactly the catalog's resources of one type.
pub open spec fn type_source_selected(
    pool: PoolView,
    catalog: Seq<ResourceView>,
    source: Seq<char>,
) -> bool {
    let typed = catalog.filter(kind_pred(source));
    !current_source_selected(pool) && !all_source_selected(pool, catalog) && typed.len() > 0
        && id_set(pool.resources) == id_set(typed)
}

/// One quick source of the composer's resource menu.
#[derive(Clone, Debug)]
pub struct SourceOption {
    pub id: &'static str,
    pub label: String,
    pub count: usize,
    pub selected: bool,
    pub enabled: bool,
    pub disabled_reason: Option<String>,
}

/// The texts of the source menu that depend on the user's language.
pub struct SourceLabels {
    pub current: String,
    pub resource_pool: String,
    pub all: String,
    pub manual: String,
    pub workspace: String,
    pub tag: String,
    pub no_workspace_source: String,
    pub no_tag_source: String,
}

pub open spec fn option_is(o: SourceOption, id: Seq<char>, count: int, selected: bool, enabled: bool) -> bool {
    o.id@ == id && o.count == count && o.selected == selected && o.enabled == enabled
}

fn type_option(
    pool_ids: &Vec<String>,
    catalog: &Vec<ResourceRef>,
    source: &'static str,
    label: &str,
    current_selected: bool,
    all_selected: bool,
) -> (r: SourceOption)
    requires
        is_type_source(source@),
    ensures
        r.label@ == label@,
        r.disabled_reason is None,
        option_is(
            r,
            source@,
            id_set(resource_views(catalog@).filter(kind_pred(source@))).len() as int,
            !current_selected && !all_selected && resource_views(catalog@).filter(
                kind_pred(source@),
            ).len() > 0 && string_views(pool_ids@).to_set() == id_set(
                resource_views(catalog@).filter(kind_pred(source@)),
            ),
            true,
        ),
{
    let typed = resources_matching(catalog, source);
    let typed_ids = resource_ids(&typed);
    let count = distinct_count(&typed_ids);
    let selected = !current_selected && !all_selected && typed.len() > 0 && same_ids(
        pool_ids,
        &typed_ids,
    );
    SourceOption { id: source, label: label.to_owned(), count, selected, enabled: true, disabled_reason: None }
}

/// The quick sources for filling the pool, in menu order: the default
/// target alone, the pool, the whole catalog, each type, a manual choice,
/// and the workspace and tag sources that are not available yet.  A source
/// is marked selected when the pool holds exactly its resources; "manual"
/// when no other source matches.
pub fn resource_source_options(
    pool: &ResourceContext,
    catalog: &Vec<ResourceRef>,
    labels: &SourceLabels,
) -> (r: Vec<SourceOption>)
    ensures
        r@.len() == 10,
        r@[0].label@ == labels.current@,
        r@[1].label@ == labels.resource_pool@,
        r@[2].label@ == labels.all@,
        r@[3].label@ == "SSH"@,
        r@[4].label@ == "DB"@,
        r@[5].label@ == "Redis"@,
        r@[6].label@ == "Terminal"@,
        r@[7].label@ == labels.manual@,
        r@[8].label@ == labels.workspace@,
        r@[9].label@ == labels.tag@,
        forall|k: int| 0 <= k < 8 ==> (#[trigger] r@[k]).disabled_reason is None,
        r@[8].disabled_reason matches Some(x) && x@ == labels.no_workspace_source@,
        r@[9].disabled_reason matches Some(x) && x@ == labels.no_tag_source@,
        ({
            let p = pool@;
            let c = resource_views(catalog@);
            let cur = current_source_selected(p);
            let all = all_source_selected(p, c);
            let typed = type_source_selected(p, c, "ssh"@) || type_source_selected(p, c, "db"@)
                || type_source_selected(p, c, "redis"@) || type_source_selected(
                p,
                c,
                "terminal"@,
            );
            &&& option_is(
                r@[0],
                "current"@,
                if current_of(p) is Some {
                    1
                } else {
                    0
                },
                cur,
                true,
            )
            &&& option_is(r@[1], "pool"@, p.resources.len() as int, false, true)
            &&& option_is(r@[2], "all"@, c.len() as int, all, true)
            &&& option_is(
                r@[3],
                "ssh"@,
                id_set(c.filter(kind_pred("ssh"@))).len() as int,
                type_source_selected(p, c, "ssh"@),
                true,
            )
            &&& option_is(
                r@[4],
                "db"@,
                id_set(c.filter(kind_pred("db"@))).len() as int,
                type_source_selected(p, c, "db"@),
                true,
            )
            &&& option_is(
                r@[5],
                "redis"@,
                id_set(c.filter(kind_pred("redis"@))).len() as int,
                type_source_selected(p, c, "redis"@),
                true,
            )
            &&& option_is(
                r@[6],
                "terminal"@,
                id_set(c.filter(kind_pred("terminal"@))).len() as int,
                type_source_selected(p, c, "terminal"@),
                true,
            )
            &&& option_is(r@[7], "manual"@, p.resources.len() as int, !cur && !all && !typed, true)
            &&& option_is(r@[8], "workspace"@, 0, false, false)
            &&& option_is(r@[9], "tag"@, 0, false, false)
        }),
{
    proof {
        reveal_strlit("ssh");
        reveal_strlit("db");
        reveal_strlit("redis");
        reveal_strlit("terminal");
    }
    let pool_ids = resource_ids(&pool.resources);
    let catalog_ids = resource_ids(catalog);
    let current_selected = pool.resources.len() == 1 && match &pool.current {
        Some(c) => crate::text::str_eq(c.as_str(), pool.resources[0].id.as_str()),
        None => false,
    };
    let all_selected = !current_selected && catalog.len() > 0 && same_ids(&pool_ids, &catalog_ids);
    let current_count: usize = match &pool.current {
        Some(c) => if find_resource(&pool.resources, c.as_str()).is_some() {
            1
        } else {
            0
        },
        None => 0,
    };
    let ssh = type_option(&pool_ids, catalog, "ssh", "SSH", current_selected, all_selected);
    let db = type_option(&pool_ids, catalog, "db", "DB", current_selected, all_selected);
    let redis = type_option(&pool_ids, catalog, "redis", "Redis", current_selected, all_selected);
    let terminal = type_option(&pool_ids, catalog, "terminal", "Terminal", current_selected, all_selected);
    let type_selected = ssh.selected || db.selected || redis.selected || terminal.selected;
    let mut options: Vec<SourceOption> = Vec::new();
    options.push(
        SourceOption {
            id: "current",
            label: labels.current.clone(),
            count: current_count,
            selected: current_selected,
            enabled: true,
            disabled_reason: None,
        },
    );
    options.push(
        SourceOption {
            id: "pool",
            label: labels.resource_pool.clone(),
            count: pool.resources.len(),
            selected: false,
            enabled: true,
            disabled_reason: None,
        },
    );
    options.push(
        SourceOption {
            id: "all",
            label: labels.all.clone(),
            count: catalog.len(),
            selected: all_selected,
            enabled: true,
            disabled_reason: None,
        },
    );
    options.push(ssh);
    options.push(db);
    options.push(redis);
    options.push(terminal);
    options.push(
        SourceOption {
            id: "manual",
            label: labels.manual.clone(),
            count: pool.resources.len(),
            selected: !current_selected && !all_selected && !type_selected,
            enabled: true,
            disabled_reason: None,
        },
    );
    options.push(
        SourceOption {
            id: "workspace",
            label: labels.workspace.clone(),
            count: 0,
            selected: false,
            enabled: false,
            disabled_reason: Some(labels.no_workspace_source.clone()),
        },
    );
    options.push(
        SourceOption {
            id: "tag",
            label: labels.tag.clone(),
            count: 0,
            selected: false,
            enabled: false,
            disabled_reason: Some(labels.no_tag_source.clone()),
        },
    );
    options
}

} // verus!
