//! Submissions that wait for their session's turn: one first-in, first-out
//! queue per session, and the decisions of submitting and of advancing a
//! queue.
use vstd::prelude::*;

use crate::acp_flow::{PendingAdvance, SubmissionStart};
use crate::prompt::{InputImage, MentionItem};
use crate::transcript_model::{first_index, is_first, lemma_first_index_is, lemma_first_index_none};

verus! {

/// What the user submitted: the text, the resources mentioned and the
/// attached images.
#[derive(Debug, Clone)]
pub struct PendingSubmission {
    pub text: String,
    pub mentions: Vec<MentionItem>,
    pub images: Vec<InputImage>,
}

/// The queued submissions of all sessions, in arrival order.
#[derive(Debug)]
pub struct PendingSubmissions {
    entries: Vec<(String, PendingSubmission)>,
}

/// The queue of session `s`: its entries' submissions, in arrival order.
pub open spec fn queue_of(es: Seq<(String, PendingSubmission)>, s: Seq<char>) -> Seq<PendingSubmission>
    decreases es.len(),
{
    if es.len() == 0 {
        Seq::empty()
    } else if es.last().0@ == s {
        queue_of(es.drop_last(), s).push(es.last().1)
    } else {
        queue_of(es.drop_last(), s)
    }
}

pub open spec fn of_session(s: Seq<char>) -> spec_fn((String, PendingSubmission)) -> bool {
    |e: (String, PendingSubmission)| e.0@ == s
}

proof fn lemma_queue_push(es: Seq<(String, PendingSubmission)>, e: (String, PendingSubmission), s: Seq<char>)
    ensures
        queue_of(es.push(e), s) == if e.0@ == s {
            queue_of(es, s).push(e.1)
        } else {
            queue_of(es, s)
        },
{
    assert(es.push(e).drop_last() =~= es);
}

proof fn lemma_queue_empty(es: Seq<(String, PendingSubmission)>, s: Seq<char>)
    requires
        forall|j: int| 0 <= j < es.len() ==> !of_session(s)(#[trigger] es[j]),
    ensures
        queue_of(es, s).len() == 0,
    decreases es.len(),
{
    if es.len() > 0 {
        let d = es.drop_last();
        assert forall|j: int| 0 <= j < d.len() implies !of_session(s)(#[trigger] d[j]) by {
            assert(d[j] == es[j]);
        }
        lemma_queue_empty(d, s);
        assert(!of_session(s)(es[es.len() - 1]));
    }
}

proof fn lemma_queue_nonempty(es: Seq<(String, PendingSubmission)>, s: Seq<char>, k: int)
    requires
        0 <= k < es.len(),
        of_session(s)(es[k]),
    ensures
        queue_of(es, s).len() > 0,
    decreases es.len(),
{
    if k < es.len() - 1 {
        lemma_queue_nonempty(es.drop_last(), s, k);
    }
}

/// Removing the first entry of `s` takes the front off `s`'s queue and leaves
/// every other queue as it was.
proof fn lemma_queue_remove_first(es: Seq<(String, PendingSubmission)>, s: Seq<char>, k: int)
    requires
        is_first(es, of_session(s), k),
    ensures
        queue_of(es, s).len() > 0,
        queue_of(es, s)[0] == es[k].1,
        queue_of(es.remove(k), s) == queue_of(es, s).drop_first(),
        forall|t: Seq<char>| t != s ==> #[trigger] queue_of(es.remove(k), t) == queue_of(es, t),
    decreases es.len(),
{
    let d = es.drop_last();
    let r = es.remove(k);
    if k == es.len() - 1 {
        assert(r =~= d);
        assert forall|j: int| 0 <= j < d.len() implies !of_session(s)(#[trigger] d[j]) by {
            assert(d[j] == es[j]);
        }
        lemma_queue_empty(d, s);
        assert(queue_of(d, s) =~= Seq::<PendingSubmission>::empty());
        assert(queue_of(es, s) =~= seq![es[k].1]);
        assert(queue_of(es, s).drop_first() =~= Seq::<PendingSubmission>::empty());
        assert forall|t: Seq<char>| t != s implies #[trigger] queue_of(es.remove(k), t) == queue_of(
            es,
            t,
        ) by {
            assert(es.last().0@ == s);
        }
    } else {
        assert(is_first(d, of_session(s), k)) by {
            assert forall|j: int| 0 <= j < k implies !of_session(s)(#[trigger] d[j]) by {
                assert(d[j] == es[j]);
                assert(!of_session(s)(es[j]));
            }
            assert(d[k] == es[k]);
        }
        lemma_queue_remove_first(d, s, k);
        assert(r.drop_last() =~= d.remove(k));
        assert(r.last() == es.last());
        assert(r.len() > 0);
        let qd = queue_of(d, s);
        if es.last().0@ == s {
            assert(queue_of(es, s) == qd.push(es.last().1));
            assert(queue_of(r, s) == queue_of(d.remove(k), s).push(es.last().1));
            assert(qd.push(es.last().1).drop_first() =~= qd.drop_first().push(es.last().1));
        } else {
            assert(queue_of(es, s) == qd);
            assert(queue_of(r, s) == queue_of(d.remove(k), s));
        }
        assert forall|t: Seq<char>| t != s implies #[trigger] queue_of(es.remove(k), t) == queue_of(
            es,
            t,
        ) by {
            assert(queue_of(d.remove(k), t) == queue_of(d, t));
        }
    }
}

impl PendingSubmissions {
    /// The queue of a session.
    pub closed spec fn queue(&self, session_uid: Seq<char>) -> Seq<PendingSubmission> {
        queue_of(self.entries@, session_uid)
    }

    /// Whether no session has anything queued.
    pub closed spec fn all_empty(&self) -> bool {
        forall|s: Seq<char>| #[trigger] self.queue(s).len() == 0
    }

    pub fn new() -> (r: Self)
        ensures
            forall|s: Seq<char>| #[trigger] r.queue(s).len() == 0,
    {
        PendingSubmissions { entries: Vec::new() }
    }

    fn first_of(&self, session_uid: &str) -> (r: Option<usize>)
        ensures
            match r {
                Some(k) => is_first(self.entries@, of_session(session_uid@), k as int),
                None => forall|j: int|
                    0 <= j < self.entries@.len() ==> !of_session(session_uid@)(
                        #[trigger] self.entries@[j],
                    ),
            },
    {
        let n = self.entries.len();
        let mut i: usize = 0;
        while i < n
            invariant
                n == self.entries@.len(),
                i <= n,
                forall|j: int| 0 <= j < i ==> !of_session(session_uid@)(#[trigger] self.entries@[j]),
            decreases n - i,
        {
            if crate::text::str_eq(self.entries[i].0.as_str(), session_uid) {
                return Some(i);
            }
            i = i + 1;
        }
        None
    }

    /// Adds a submission at the back of the session's queue.
    pub fn enqueue(&mut self, session_uid: &str, submission: PendingSubmission)
        ensures
            final(self).queue(session_uid@) == old(self).queue(session_uid@).push(submission),
            forall|t: Seq<char>|
                t != session_uid@ ==> #[trigger] final(self).queue(t) == old(self).queue(t),
    {
        let ghost before = self.entries@;
        let key = session_uid.to_owned();
        proof {
            assert(key@ == session_uid@);
        }
        self.entries.push((key, submission));
        proof {
            assert forall|t: Seq<char>| #[trigger] queue_of(self.entries@, t) == if t == session_uid@ {
                queue_of(before, t).push(submission)
            } else {
                queue_of(before, t)
            } by {
                lemma_queue_push(before, self.entries@.last(), t);
                assert(self.entries@ =~= before.push(self.entries@.last()));
            }
        }
    }

    /// The number of submissions the session has queued.
    pub fn len(&self, session_uid: &str) -> (r: usize)
        ensures
            r == self.queue(session_uid@).len(),
    {
        let ghost es = self.entries@;
        let mut count: usize = 0;
        let n = self.entries.len();
        let mut i: usize = 0;
        while i < n
            invariant
                es == self.entries@,
                n == es.len(),
                i <= n,
                count == queue_of(es.take(i as int), session_uid@).len(),
                count <= i,
            decreases n - i,
        {
            proof {
                lemma_queue_push(es.take(i as int), es[i as int], session_uid@);
                assert(es.take(i + 1) =~= es.take(i as int).push(es[i as int]));
            }
            if crate::text::str_eq(self.entries[i].0.as_str(), session_uid) {
                count = count + 1;
            }
            i = i + 1;
        }
        proof {
            assert(es.take(n as int) =~= es);
        }
        count
    }

    /// Whether no session has anything queued.
    pub fn is_empty(&self) -> (r: bool)
        ensures
            r == self.all_empty(),
    {
        let r = self.entries.len() == 0;
        proof {
            if r {
                assert forall|s: Seq<char>| #[trigger] self.queue(s).len() == 0 by {
                    lemma_queue_empty(self.entries@, s);
                }
            } else {
                let s = self.entries@[0].0@;
                lemma_queue_nonempty(self.entries@, s, 0);
                assert(self.queue(s).len() > 0);
            }
        }
        r
    }

    /// The front of the session's queue.
    pub fn front(&self, session_uid: &str) -> (r: Option<&PendingSubmission>)
        ensures
            match r {
                Some(x) => self.queue(session_uid@).len() > 0 && *x == self.queue(session_uid@)[0],
                None => self.queue(session_uid@).len() == 0,
            },
    {
        match self.first_of(session_uid) {
            Some(k) => {
                proof {
                    lemma_queue_remove_first(self.entries@, session_uid@, k as int);
                }
                Some(&self.entries[k].1)
            },
            None => {
                proof {
                    lemma_queue_empty(self.entries@, session_uid@);
                }
                None
            },
        }
    }

    /// Takes the front off the session's queue; other queues stay.
    pub fn pop_front(&mut self, session_uid: &str) -> (r: Option<PendingSubmission>)
        ensures
            match r {
                Some(x) => old(self).queue(session_uid@).len() > 0 && x == old(self).queue(
                    session_uid@,
                )[0] && final(self).queue(session_uid@) == old(self).queue(
                    session_uid@,
                ).drop_first(),
                None => old(self).queue(session_uid@).len() == 0 && final(self).queue(session_uid@)
                    == old(self).queue(session_uid@),
            },
            forall|t: Seq<char>|
                t != session_uid@ ==> #[trigger] final(self).queue(t) == old(self).queue(t),
    {
        match self.first_of(session_uid) {
            Some(k) => {
                proof {
                    lemma_queue_remove_first(self.entries@, session_uid@, k as int);
                }
                let (_, submission) = self.entries.remove(k);
                Some(submission)
            },
            None => {
                proof {
                    lemma_queue_empty(self.entries@, session_uid@);
                }
                None
            },
        }
    }

    /// Drops the session's queue; other queues stay.
    pub fn clear_session(&mut self, session_uid: &str)
        ensures
            final(self).queue(session_uid@).len() == 0,
            forall|t: Seq<char>|
                t != session_uid@ ==> #[trigger] final(self).queue(t) == old(self).queue(t),
    {
        loop
            invariant
                forall|t: Seq<char>|
                    t != session_uid@ ==> #[trigger] self.queue(t) == old(self).queue(t),
            ensures
                self.queue(session_uid@).len() == 0,
                forall|t: Seq<char>|
                    t != session_uid@ ==> #[trigger] self.queue(t) == old(self).queue(t),
            decreases self.entries@.len(),
        {
            match self.first_of(session_uid) {
                Some(k) => {
                    let ghost before = self.entries@;
                    let ghost snapshot = *self;
                    proof {
                        lemma_queue_remove_first(before, session_uid@, k as int);
                    }
                    self.entries.remove(k);
                    proof {
                        assert(self.entries@ == before.remove(k as int));
                        assert forall|t: Seq<char>| t != session_uid@ implies #[trigger] self.queue(t)
                            == old(self).queue(t) by {
                            assert(snapshot.queue(t) == old(self).queue(t));
                            assert(queue_of(before.remove(k as int), t) == queue_of(before, t));
                        }
                    }
                },
                None => {
                    proof {
                        lemma_queue_empty(self.entries@, session_uid@);
                    }
                    break;
                },
            }
        }
    }
}

impl PendingSubmissions {
    /// The session's queue, front first.
    pub fn items(&self, session_uid: &str) -> (r: Vec<&PendingSubmission>)
        ensures
            r@.len() == self.queue(session_uid@).len(),
            forall|i: int| 0 <= i < r@.len() ==> *(#[trigger] r@[i]) == self.queue(session_uid@)[i],
    {
        let ghost es = self.entries@;
        let mut out: Vec<&PendingSubmission> = Vec::new();
        let n = self.entries.len();
        let mut i: usize = 0;
        while i < n
            invariant
                es == self.entries@,
                n == es.len(),
                i <= n,
                out@.len() == queue_of(es.take(i as int), session_uid@).len(),
                forall|k: int|
                    0 <= k < out@.len() ==> *(#[trigger] out@[k]) == queue_of(
                        es.take(i as int),
                        session_uid@,
                    )[k],
            decreases n - i,
        {
            proof {
                lemma_queue_push(es.take(i as int), es[i as int], session_uid@);
                assert(es.take(i + 1) =~= es.take(i as int).push(es[i as int]));
            }
            if crate::text::str_eq(self.entries[i].0.as_str(), session_uid) {
                out.push(&self.entries[i].1);
            }
            i = i + 1;
        }
        proof {
            assert(es.take(n as int) =~= es);
        }
        out
    }
}

/// Where a new submission goes.
#[derive(Clone, Copy, Debug, PartialEq, Eq, Structural)]
pub enum SubmitRoute {
    /// The session runs: the submission waits at the back of its queue.
    Queue,
    /// The queue was paused: the submission joins its back and the queue
    /// resumes from its front.
    QueueAndResume,
    /// The ACP agent is gone but can be reconnected: the submission waits
    /// while it reconnects.
    QueueAndReconnect,
    /// The submission starts now (and waits in the queue only if the start
    /// must be retried).
    Start,
}

/// Routes a submission: a running session queues it; a paused queue takes it
/// at its back and resumes, so nothing jumps the queue; a disconnected ACP
/// agent that can be reconnected queues it and reconnects; otherwise it
/// starts.
pub fn submit_route(session_running: bool, queued: usize, acp_reconnectable: bool) -> (r: SubmitRoute)
    ensures
        r == (if session_running {
            SubmitRoute::Queue
        } else if queued > 0 {
            SubmitRoute::QueueAndResume
        } else if acp_reconnectable {
            SubmitRoute::QueueAndReconnect
        } else {
            SubmitRoute::Start
        }),
{
    if session_running {
        SubmitRoute::Queue
    } else if queued > 0 {
        SubmitRoute::QueueAndResume
    } else if acp_reconnectable {
        SubmitRoute::QueueAndReconnect
    } else {
        SubmitRoute::Start
    }
}

/// A submission that was started directly waits in the queue only when its
/// start must be retried.
pub fn queue_after_direct_start(result: SubmissionStart) -> (r: bool)
    ensures
        r == (result == SubmissionStart::RetryLater),
{
    result == SubmissionStart::RetryLater
}

/// The next step of advancing a session's queue: blocked while the session
/// runs, idle with nothing queued, else the front is tried.
pub fn pending_step(session_running: bool, queued: usize) -> (r: Option<PendingAdvance>)
    ensures
        r == (if session_running {
            Some(PendingAdvance::Blocked)
        } else if queued == 0 {
            Some(PendingAdvance::Idle)
        } else {
            None
        }),
{
    if session_running {
        Some(PendingAdvance::Blocked)
    } else if queued == 0 {
        Some(PendingAdvance::Idle)
    } else {
        None
    }
}

/// After trying the front of a queue: whether it leaves the queue, and the
/// outcome, if advancing stops here. A started front leaves and advancing
/// stops; a front to retry stays and advancing is blocked; a rejected front
/// leaves and the next one is tried.
pub fn after_front_start(result: SubmissionStart) -> (r: (bool, Option<PendingAdvance>))
    ensures
        r == (match result {
            SubmissionStart::Started => (true, Some(PendingAdvance::Started)),
            SubmissionStart::RetryLater => (false, Some(PendingAdvance::Blocked)),
            SubmissionStart::Rejected => (true, None),
        }),
{
    match result {
        SubmissionStart::Started => (true, Some(PendingAdvance::Started)),
        SubmissionStart::RetryLater => (false, Some(PendingAdvance::Blocked)),
        SubmissionStart::Rejected => (true, None),
    }
}

/// Queued submissions leave a session's queue in the order they arrived:
/// behind a queue `q`, `a` then `b` join, and the fronts taken after the
/// whole of `q` are `a` and then `b`.
pub proof fn lemma_queue_is_first_in_first_out(q: Seq<PendingSubmission>, a: PendingSubmission, b: PendingSubmission)
    ensures
        q.push(a).push(b).take(q.len() as int) == q,
        q.push(a).push(b).skip(q.len() as int) == seq![a, b],
{
    assert(q.push(a).push(b).take(q.len() as int) =~= q);
    assert(q.push(a).push(b).skip(q.len() as int) =~= seq![a, b]);
}

} // verus!
