//! The transcripts of background sessions, kept in least-recently-used
//! order and trimmed to a size without dropping sessions still in use.
use vstd::prelude::*;

use crate::composer::string_views;
use crate::transcript_model::{
    first_index, is_first, lemma_first_index_found, lemma_first_index_is, lemma_first_index_none,
};

verus! {

/// At most this many session transcripts are kept in memory.
pub const MAX_CACHED_SESSION_TRANSCRIPTS: usize = 32;

/// Session transcripts by session id, least recently used first.
pub struct SessionTranscriptCache<T> {
    entries: Vec<(String, T)>,
}

pub open spec fn entry_views<T>(s: Seq<(String, T)>) -> Seq<(Seq<char>, T)> {
    s.map_values(|e: (String, T)| (e.0@, e.1))
}

pub open spec fn uid_is<T>(uid: Seq<char>) -> spec_fn((Seq<char>, T)) -> bool {
    |e: (Seq<char>, T)| e.0 == uid
}

pub open spec fn keys_of<T>(s: Seq<(Seq<char>, T)>) -> Seq<Seq<char>> {
    s.map_values(|e: (Seq<char>, T)| e.0)
}

/// The entries after a session is used: it moves to the most recent end.
pub open spec fn touched<T>(s: Seq<(Seq<char>, T)>, uid: Seq<char>) -> Seq<(Seq<char>, T)> {
    match first_index(s, uid_is::<T>(uid)) {
        Some(i) => s.remove(i).push(s[i]),
        None => s,
    }
}

/// The entries after a transcript is stored for a session: it replaces the
/// session's earlier one and becomes the most recent.
pub open spec fn inserted<T>(s: Seq<(Seq<char>, T)>, uid: Seq<char>, t: T) -> Seq<(Seq<char>, T)> {
    match first_index(s, uid_is::<T>(uid)) {
        Some(i) => s.remove(i).push((uid, t)),
        None => s.push((uid, t)),
    }
}

/// A session that trimming must keep: the preserved one or a protected one.
pub open spec fn kept_by_trim(uid: Seq<char>, preserve: Option<Seq<char>>, protected: Seq<Seq<char>>) -> bool {
    preserve == Some(uid) || protected.contains(uid)
}

pub open spec fn evictable<T>(preserve: Option<Seq<char>>, protected: Seq<Seq<char>>) -> spec_fn(
    (Seq<char>, T),
) -> bool {
    |e: (Seq<char>, T)| !kept_by_trim(e.0, preserve, protected)
}

/// Least recently used sessions go, skipping the preserved and protected
/// ones, until at most `max` remain or only kept ones are left.
pub open spec fn trimmed<T>(
    s: Seq<(Seq<char>, T)>,
    max: nat,
    preserve: Option<Seq<char>>,
    protected: Seq<Seq<char>>,
) -> Seq<(Seq<char>, T)>
    decreases s.len(),
{
    if s.len() <= max {
        s
    } else {
        match first_index(s, evictable::<T>(preserve, protected)) {
            Some(i) => {
                proof {
                    lemma_first_index_found(s, evictable::<T>(preserve, protected));
                }
                trimmed(s.remove(i), max, preserve, protected)
            },
            None => s,
        }
    }
}

/// Trimming keeps every preserved or protected session and leaves at most
/// `max` sessions unless only kept ones would have to go.
pub proof fn lemma_trim_keeps_sessions_in_use<T>(
    s: Seq<(Seq<char>, T)>,
    max: nat,
    preserve: Option<Seq<char>>,
    protected: Seq<Seq<char>>,
)
    ensures
        forall|e: (Seq<char>, T)|
            s.contains(e) && kept_by_trim(e.0, preserve, protected) ==> #[trigger] trimmed(
                s,
                max,
                preserve,
                protected,
            ).contains(e),
        trimmed(s, max, preserve, protected).len() <= max || forall|k: int|
            0 <= k < trimmed(s, max, preserve, protected).len() ==> kept_by_trim(
                #[trigger] trimmed(s, max, preserve, protected)[k].0,
                preserve,
                protected,
            ),
    decreases s.len(),
{
    if s.len() > max {
        let p = evictable::<T>(preserve, protected);
        lemma_first_index_found(s, p);
        match first_index(s, p) {
            Some(i) => {
                let r = s.remove(i);
                lemma_trim_keeps_sessions_in_use(r, max, preserve, protected);
                assert forall|e: (Seq<char>, T)|
                    s.contains(e) && kept_by_trim(e.0, preserve, protected) implies r.contains(
                    e,
                ) by {
                    let j = choose|j: int| 0 <= j < s.len() && s[j] == e;
                    if j < i {
                        assert(r[j] == e);
                    } else if j > i {
                        assert(r[j - 1] == e);
                    } else {
                        assert(p(s[i]));
                    }
                }
            },
            None => {
                assert forall|k: int| 0 <= k < s.len() implies kept_by_trim(
                    #[trigger] s[k].0,
                    preserve,
                    protected,
                ) by {
                    if !kept_by_trim(s[k].0, preserve, protected) {
                        assert(p(s[k]));
                        crate::transcript_model::lemma_first_index_is_some(s, p, k);
                    }
                }
            },
        }
    }
}

/// How many of the entries trimming may drop: those neither preserved nor
/// protected.
pub open spec fn evictable_count<T>(
    s: Seq<(Seq<char>, T)>,
    preserve: Option<Seq<char>>,
    protected: Seq<Seq<char>>,
) -> nat
    decreases s.len(),
{
    if s.len() == 0 {
        0
    } else {
        (if kept_by_trim(s[0].0, preserve, protected) {
            0nat
        } else {
            1nat
        }) + evictable_count(s.drop_first(), preserve, protected)
    }
}

/// The entries without the `k` least recently used ones that are neither
/// preserved nor protected; everything else stays in order.
pub open spec fn without_oldest_evictable<T>(
    s: Seq<(Seq<char>, T)>,
    k: nat,
    preserve: Option<Seq<char>>,
    protected: Seq<Seq<char>>,
) -> Seq<(Seq<char>, T)>
    decreases s.len(),
{
    if s.len() == 0 || k == 0 {
        s
    } else if kept_by_trim(s[0].0, preserve, protected) {
        seq![s[0]] + without_oldest_evictable(s.drop_first(), k, preserve, protected)
    } else {
        without_oldest_evictable(s.drop_first(), (k - 1) as nat, preserve, protected)
    }
}

proof fn lemma_remove_first_evictable<T>(
    s: Seq<(Seq<char>, T)>,
    i: int,
    k: nat,
    preserve: Option<Seq<char>>,
    protected: Seq<Seq<char>>,
)
    requires
        is_first(s, evictable::<T>(preserve, protected), i),
        k >= 1,
    ensures
        without_oldest_evictable(s, k, preserve, protected) == without_oldest_evictable(
            s.remove(i),
            (k - 1) as nat,
            preserve,
            protected,
        ),
        evictable_count(s.remove(i), preserve, protected) + 1 == evictable_count(
            s,
            preserve,
            protected,
        ),
    decreases i,
{
    let p = evictable::<T>(preserve, protected);
    if i == 0 {
        assert(s.remove(0) =~= s.drop_first());
    } else {
        assert(!p(s[0]));
        let t = s.drop_first();
        assert forall|j: int| 0 <= j < i - 1 implies !p(#[trigger] t[j]) by {
            assert(t[j] == s[j + 1]);
        }
        assert(t[i - 1] == s[i]);
        lemma_remove_first_evictable(t, i - 1, k, preserve, protected);
        let r = s.remove(i);
        assert(r[0] == s[0]);
        assert(r.drop_first() =~= t.remove(i - 1));
        if k == 1 {
            assert(seq![s[0]] + t.remove(i - 1) =~= r);
        }
    }
}

proof fn lemma_no_evictable<T>(
    s: Seq<(Seq<char>, T)>,
    k: nat,
    preserve: Option<Seq<char>>,
    protected: Seq<Seq<char>>,
)
    requires
        forall|j: int| 0 <= j < s.len() ==> !evictable::<T>(preserve, protected)(#[trigger] s[j]),
    ensures
        evictable_count(s, preserve, protected) == 0,
        without_oldest_evictable(s, k, preserve, protected) == s,
    decreases s.len(),
{
    if s.len() > 0 {
        let t = s.drop_first();
        assert(!evictable::<T>(preserve, protected)(s[0]));
        assert forall|j: int| 0 <= j < t.len() implies !evictable::<T>(preserve, protected)(
            #[trigger] t[j],
        ) by {
            assert(t[j] == s[j + 1]);
        }
        lemma_no_evictable(t, k, preserve, protected);
        if k > 0 {
            assert(seq![s[0]] + t =~= s);
        }
    }
}

/// Trimming removes entries only while more than `max` remain, and those it
/// removes are the least recently used ones that are neither preserved nor
/// protected: it drops exactly `min(len - max, evictable)` of them, oldest
/// first.  So when enough entries are evictable, exactly `max` remain.
pub proof fn lemma_trim_drops_least_recently_used<T>(
    s: Seq<(Seq<char>, T)>,
    max: nat,
    preserve: Option<Seq<char>>,
    protected: Seq<Seq<char>>,
)
    ensures
        s.len() <= max ==> trimmed(s, max, preserve, protected) == s,
        s.len() > max ==> trimmed(s, max, preserve, protected) == without_oldest_evictable(
            s,
            if evictable_count(s, preserve, protected) < s.len() - max {
                evictable_count(s, preserve, protected)
            } else {
                (s.len() - max) as nat
            },
            preserve,
            protected,
        ),
        s.len() > max && evictable_count(s, preserve, protected) >= s.len() - max ==> trimmed(
            s,
            max,
            preserve,
            protected,
        ).len() == max,
    decreases s.len(),
{
    if s.len() > max {
        let p = evictable::<T>(preserve, protected);
        lemma_first_index_found(s, p);
        match first_index(s, p) {
            Some(i) => {
                let r = s.remove(i);
                lemma_remove_first_evictable(s, i, 1, preserve, protected);
                lemma_trim_drops_least_recently_used(r, max, preserve, protected);
                let c = evictable_count(s, preserve, protected);
                let k: nat = if c < s.len() - max {
                    c
                } else {
                    (s.len() - max) as nat
                };
                if r.len() > max {
                    lemma_remove_first_evictable(s, i, k, preserve, protected);
                }
            },
            None => {
                assert forall|j: int| 0 <= j < s.len() implies !p(#[trigger] s[j]) by {
                    if p(s[j]) {
                        crate::transcript_model::lemma_first_index_is_some(s, p, j);
                    }
                }
                lemma_no_evictable(s, 0, preserve, protected);
            },
        }
    }
}

/// The transcript the entries hold for a session, if any.
pub open spec fn cached<T>(s: Seq<(Seq<char>, T)>, uid: Seq<char>) -> Option<T> {
    match first_index(s, uid_is::<T>(uid)) {
        Some(i) => Some(s[i].1),
        None => None,
    }
}

proof fn lemma_cached_unique<T>(s: Seq<(Seq<char>, T)>, uid: Seq<char>, k: int)
    requires
        keys_of(s).no_duplicates(),
        0 <= k < s.len(),
        s[k].0 == uid,
    ensures
        first_index(s, uid_is::<T>(uid)) == Some(k),
        cached(s, uid) == Some(s[k].1),
{
    assert forall|j: int| 0 <= j < k implies !uid_is::<T>(uid)(#[trigger] s[j]) by {
        assert(keys_of(s)[j] != keys_of(s)[k]);
    }
    lemma_first_index_is(s, uid_is::<T>(uid), k);
}

proof fn lemma_cached_absent<T>(s: Seq<(Seq<char>, T)>, uid: Seq<char>)
    requires
        forall|j: int| 0 <= j < s.len() ==> (#[trigger] s[j]).0 != uid,
    ensures
        first_index(s, uid_is::<T>(uid)) is None,
        cached(s, uid) is None,
{
    lemma_first_index_none(s, uid_is::<T>(uid));
}

/// Storing a transcript for a session keeps the session ids unique, makes
/// that session the most recently used, and a lookup then gives back the
/// stored transcript; the cache grows by one only for a new session, and
/// every other session's transcript is still the one cached before.
pub proof fn lemma_insert_then_lookup<T>(s: Seq<(Seq<char>, T)>, uid: Seq<char>, t: T)
    requires
        keys_of(s).no_duplicates(),
    ensures
        keys_of(inserted(s, uid, t)).no_duplicates(),
        inserted(s, uid, t).last() == (uid, t),
        cached(inserted(s, uid, t), uid) == Some(t),
        inserted(s, uid, t).len() == s.len() + (if cached(s, uid) is Some {
            0int
        } else {
            1int
        }),
        forall|other: Seq<char>|
            other != uid ==> #[trigger] cached(inserted(s, uid, t), other) == cached(s, other),
{
    let r = inserted(s, uid, t);
    let p = uid_is::<T>(uid);
    lemma_first_index_found(s, p);
    let base = match first_index(s, p) {
        Some(i) => s.remove(i),
        None => s,
    };
    assert(r == base.push((uid, t)));
    assert forall|j: int| 0 <= j < base.len() implies (#[trigger] base[j]).0 != uid by {
        match first_index(s, p) {
            Some(i) => {
                let m = if j < i {
                    j
                } else {
                    j + 1
                };
                assert(base[j] == s[m]);
                assert(keys_of(s)[m] != keys_of(s)[i]);
            },
            None => {
                if p(s[j]) {
                    crate::transcript_model::lemma_first_index_is_some(s, p, j);
                }
            },
        }
    }
    assert forall|a: int, b: int|
        0 <= a < keys_of(r).len() && 0 <= b < keys_of(r).len() && a != b implies keys_of(r)[a]
        != keys_of(r)[b] by {
        if a < base.len() && b < base.len() {
            match first_index(s, p) {
                Some(i) => {
                    let ma = if a < i {
                        a
                    } else {
                        a + 1
                    };
                    let mb = if b < i {
                        b
                    } else {
                        b + 1
                    };
                    assert(base[a] == s[ma] && base[b] == s[mb]);
                    assert(keys_of(s)[ma] != keys_of(s)[mb]);
                },
                None => {
                    assert(keys_of(s)[a] != keys_of(s)[b]);
                },
            }
        } else if a < base.len() {
            assert(base[a].0 != uid);
        } else if b < base.len() {
            assert(base[b].0 != uid);
        }
    }
    lemma_cached_unique(r, uid, r.len() - 1);
    match first_index(s, p) {
        Some(i) => {},
        None => {
            lemma_cached_absent(s, uid);
        },
    }
    assert forall|other: Seq<char>| other != uid implies #[trigger] cached(r, other) == cached(
        s,
        other,
    ) by {
        if exists|k: int| 0 <= k < s.len() && s[k].0 == other {
            let k = choose|k: int| 0 <= k < s.len() && s[k].0 == other;
            lemma_cached_unique(s, other, k);
            match first_index(s, p) {
                Some(i) => {
                    assert(k != i);
                    let kr = if k < i {
                        k
                    } else {
                        k - 1
                    };
                    assert(r[kr] == s[k]);
                    lemma_cached_unique(r, other, kr);
                },
                None => {
                    assert(r[k] == s[k]);
                    lemma_cached_unique(r, other, k);
                },
            }
        } else {
            lemma_cached_absent(s, other);
            assert forall|j: int| 0 <= j < r.len() implies (#[trigger] r[j]).0 != other by {
                if j < base.len() {
                    match first_index(s, p) {
                        Some(i) => {
                            let m = if j < i {
                                j
                            } else {
                                j + 1
                            };
                            assert(base[j] == s[m]);
                        },
                        None => {
                            assert(base[j] == s[j]);
                        },
                    }
                }
            }
            lemma_cached_absent(r, other);
        }
    }
}

/// Using a session changes no cached transcript and keeps the session ids
/// unique and the size unchanged; the used session becomes the most recent.
pub proof fn lemma_touch_keeps_transcripts<T>(s: Seq<(Seq<char>, T)>, uid: Seq<char>)
    requires
        keys_of(s).no_duplicates(),
    ensures
        keys_of(touched(s, uid)).no_duplicates(),
        touched(s, uid).len() == s.len(),
        forall|k: Seq<char>| #[trigger] cached(touched(s, uid), k) == cached(s, k),
        cached(s, uid) is Some ==> touched(s, uid).last().0 == uid,
{
    let p = uid_is::<T>(uid);
    lemma_first_index_found(s, p);
    if let Some(i) = first_index(s, p) {
        let t = s[i].1;
        assert(s[i] == (uid, t));
        lemma_insert_then_lookup(s, uid, t);
        assert(touched(s, uid) == inserted(s, uid, t));
        lemma_cached_unique(s, uid, i);
        assert forall|k: Seq<char>| #[trigger] cached(touched(s, uid), k) == cached(s, k) by {
            if k != uid {
                assert(cached(inserted(s, uid, t), k) == cached(s, k));
            }
        }
    }
}

/// Taking a session's transcript out leaves no transcript for it and every
/// other session's transcript as it was.
pub proof fn lemma_remove_forgets_only_that_session<T>(s: Seq<(Seq<char>, T)>, uid: Seq<char>)
    requires
        keys_of(s).no_duplicates(),
    ensures
        ({
            let r = match first_index(s, uid_is::<T>(uid)) {
                Some(i) => s.remove(i),
                None => s,
            };
            &&& keys_of(r).no_duplicates()
            &&& cached(r, uid) is None
            &&& forall|k: Seq<char>| k != uid ==> #[trigger] cached(r, k) == cached(s, k)
        }),
{
    let p = uid_is::<T>(uid);
    lemma_first_index_found(s, p);
    match first_index(s, p) {
        Some(i) => {
            let r = s.remove(i);
            assert forall|a: int, b: int|
                0 <= a < keys_of(r).len() && 0 <= b < keys_of(r).len() && a != b implies keys_of(
                r,
            )[a] != keys_of(r)[b] by {
                let ma = if a < i {
                    a
                } else {
                    a + 1
                };
                let mb = if b < i {
                    b
                } else {
                    b + 1
                };
                assert(r[a] == s[ma] && r[b] == s[mb]);
                assert(keys_of(s)[ma] != keys_of(s)[mb]);
            }
            assert forall|j: int| 0 <= j < r.len() implies (#[trigger] r[j]).0 != uid by {
                let m = if j < i {
                    j
                } else {
                    j + 1
                };
                assert(r[j] == s[m]);
                assert(keys_of(s)[m] != keys_of(s)[i]);
            }
            lemma_cached_absent(r, uid);
            assert forall|k: Seq<char>| k != uid implies #[trigger] cached(r, k) == cached(s, k) by {
                if exists|m: int| 0 <= m < s.len() && s[m].0 == k {
                    let m = choose|m: int| 0 <= m < s.len() && s[m].0 == k;
                    lemma_cached_unique(s, k, m);
                    assert(m != i);
                    let mr = if m < i {
                        m
                    } else {
                        m - 1
                    };
                    assert(r[mr] == s[m]);
                    lemma_cached_unique(r, k, mr);
                } else {
                    lemma_cached_absent(s, k);
                    assert forall|j: int| 0 <= j < r.len() implies (#[trigger] r[j]).0 != k by {
                        let m = if j < i {
                            j
                        } else {
                            j + 1
                        };
                        assert(r[j] == s[m]);
                    }
                    lemma_cached_absent(r, k);
                }
            }
        },
        None => {
            assert forall|j: int| 0 <= j < s.len() implies (#[trigger] s[j]).0 != uid by {
                if p(s[j]) {
                    crate::transcript_model::lemma_first_index_is_some(s, p, j);
                }
            }
            lemma_cached_absent(s, uid);
        },
    }
}

impl<T> SessionTranscriptCache<T> {
    /// The cached sessions, least recently used first.
    pub closed spec fn entries(&self) -> Seq<(Seq<char>, T)> {
        entry_views(self.entries@)
    }

    /// An empty cache.
    pub fn new() -> (r: Self)
        ensures
            r.entries() == Seq::<(Seq<char>, T)>::empty(),
    {
        let r = SessionTranscriptCache { entries: Vec::new() };
        proof {
            assert(r.entries() =~= Seq::<(Seq<char>, T)>::empty());
        }
        r
    }

    /// How many sessions are cached.
    pub fn len(&self) -> (r: usize)
        ensures
            r == self.entries().len(),
    {
        self.entries.len()
    }

    fn position(&self, uid: &str) -> (r: Option<usize>)
        ensures
            match r {
                Some(i) => first_index(self.entries(), uid_is::<T>(uid@)) == Some(i as int) && i
                    < self.entries@.len(),
                None => first_index(self.entries(), uid_is::<T>(uid@)) is None,
            },
    {
        let ghost es = self.entries();
        let n = self.entries.len();
        let mut i: usize = 0;
        while i < n
            invariant
                es == self.entries(),
                n == es.len(),
                i <= n,
                forall|j: int| 0 <= j < i ==> !uid_is::<T>(uid@)(#[trigger] es[j]),
            decreases n - i,
        {
            if crate::text::str_eq(self.entries[i].0.as_str(), uid) {
                proof {
                    assert(is_first(es, uid_is::<T>(uid@), i as int));
                    lemma_first_index_is(es, uid_is::<T>(uid@), i as int);
                }
                return Some(i);
            }
            i = i + 1;
        }
        proof {
            lemma_first_index_none(es, uid_is::<T>(uid@));
        }
        None
    }

    /// A session's transcript is cached.
    pub fn contains(&self, uid: &str) -> (r: bool)
        ensures
            r == (first_index(self.entries(), uid_is::<T>(uid@)) is Some),
    {
        self.position(uid).is_some()
    }

    /// The cached transcript of a session.
    pub fn get(&self, uid: &str) -> (r: Option<&T>)
        ensures
            match first_index(self.entries(), uid_is::<T>(uid@)) {
                Some(i) => r == Some(&self.entries()[i].1),
                None => r is None,
            },
    {
        match self.position(uid) {
            Some(i) => Some(&self.entries[i].1),
            None => None,
        }
    }

    /// Marks a session as just used.
    pub fn touch(&mut self, uid: &str)
        ensures
            final(self).entries() == touched(old(self).entries(), uid@),
    {
        if let Some(i) = self.position(uid) {
            let ghost before = self.entries@;
            let e = self.entries.remove(i);
            self.entries.push(e);
            proof {
                assert(entry_views(self.entries@) =~= entry_views(before).remove(i as int).push(
                    entry_views(before)[i as int],
                ));
            }
        }
    }

    /// Stores a session's transcript as the most recently used.
    pub fn insert(&mut self, uid: String, transcript: T)
        ensures
            final(self).entries() == inserted(old(self).entries(), uid@, transcript),
    {
        let ghost before = self.entries@;
        match self.position(uid.as_str()) {
            Some(i) => {
                self.entries.remove(i);
                self.entries.push((uid, transcript));
                proof {
                    assert(entry_views(self.entries@) =~= entry_views(before).remove(i as int).push(
                        (self.entries@.last().0@, transcript),
                    ));
                }
            },
            None => {
                self.entries.push((uid, transcript));
                proof {
                    assert(entry_views(self.entries@) =~= entry_views(before).push(
                        (self.entries@.last().0@, transcript),
                    ));
                }
            },
        }
    }

    /// Takes a session's transcript out of the cache.
    pub fn remove(&mut self, uid: &str) -> (r: Option<T>)
        ensures
            match first_index(old(self).entries(), uid_is::<T>(uid@)) {
                Some(i) => r == Some(old(self).entries()[i].1) && final(self).entries() == old(
                    self,
                ).entries().remove(i),
                None => r is None && final(self).entries() == old(self).entries(),
            },
    {
        match self.position(uid) {
            Some(i) => {
                let ghost before = self.entries@;
                let e = self.entries.remove(i);
                proof {
                    assert(entry_views(self.entries@) =~= entry_views(before).remove(i as int));
                }
                Some(e.1)
            },
            None => None,
        }
    }

    /// Drops every cached transcript.
    pub fn clear(&mut self)
        ensures
            final(self).entries() == Seq::<(Seq<char>, T)>::empty(),
    {
        self.entries = Vec::new();
        proof {
            assert(self.entries() =~= Seq::<(Seq<char>, T)>::empty());
        }
    }

    /// Drops least recently used sessions until at most `max_entries`
    /// remain, never the `preserve` session nor a `protected` one (the
    /// current session, running sessions, sessions with queued submissions
    /// or an ACP operation in flight).
    pub fn trim(&mut self, max_entries: usize, preserve: Option<&str>, protected: &Vec<String>)
        ensures
            final(self).entries() == trimmed(
                old(self).entries(),
                max_entries as nat,
                opt_str_view(preserve),
                string_views(protected@),
            ),
    {
        let ghost pv = opt_str_view(preserve);
        let ghost ps = string_views(protected@);
        let ghost target = trimmed(self.entries(), max_entries as nat, pv, ps);
        loop
            invariant
                trimmed(self.entries(), max_entries as nat, pv, ps) == target,
                target == trimmed(old(self).entries(), max_entries as nat, pv, ps),
                pv == opt_str_view(preserve),
                ps == string_views(protected@),
            decreases self.entries@.len(),
        {
            if self.entries.len() <= max_entries {
                proof {
                    assert(self.entries() == target);
                }
                return;
            }
            match self.first_evictable(preserve, protected) {
                Some(k) => {
                    let ghost before = self.entries@;
                    self.entries.remove(k);
                    proof {
                        assert(entry_views(self.entries@) =~= entry_views(before).remove(k as int));
                    }
                },
                None => {
                    proof {
                        assert(self.entries() == target);
                    }
                    return;
                },
            }
        }
    }

    fn first_evictable(&self, preserve: Option<&str>, protected: &Vec<String>) -> (r: Option<usize>)
        ensures
            match r {
                Some(i) => first_index(
                    self.entries(),
                    evictable::<T>(opt_str_view(preserve), string_views(protected@)),
                ) == Some(i as int) && i < self.entries@.len(),
                None => first_index(
                    self.entries(),
                    evictable::<T>(opt_str_view(preserve), string_views(protected@)),
                ) is None,
            },
    {
        let ghost es = self.entries();
        let ghost p = evictable::<T>(opt_str_view(preserve), string_views(protected@));
        let n = self.entries.len();
        let mut i: usize = 0;
        while i < n
            invariant
                es == self.entries(),
                n == es.len(),
                i <= n,
                p == evictable::<T>(opt_str_view(preserve), string_views(protected@)),
                forall|j: int| 0 <= j < i ==> !p(#[trigger] es[j]),
            decreases n - i,
        {
            let uid = self.entries[i].0.as_str();
            let is_preserved = match preserve {
                Some(keep) => crate::text::str_eq(keep, uid),
                None => false,
            };
            let is_protected = crate::composer::contains_str(protected, uid);
            if !is_preserved && !is_protected {
                proof {
                    assert(p(es[i as int]));
                    assert(is_first(es, p, i as int));
                    lemma_first_index_is(es, p, i as int);
                }
                return Some(i);
            }
            i = i + 1;
        }
        proof {
            lemma_first_index_none(es, p);
        }
        None
    }
}

pub open spec fn opt_str_view(o: Option<&str>) -> Option<Seq<char>> {
    match o {
        Some(s) => Some(s@),
        None => None,
    }
}

} // verus!
