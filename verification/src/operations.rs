//! Generation counters that tell a late callback from the operation it was
//! started for: one per session for local turns, one for ACP connections and
//! session switches, and the ACP session that is being created.
use vstd::prelude::*;

use crate::acp_flow::{AcpSessionTransitionPhase, Backend};
use crate::cards::opt_view;
use crate::composer::{contains_str, string_views};
use crate::transcript_model::{first_index, is_first, lemma_first_index_is, lemma_first_index_none};

verus! {

/// The generation after `g`: one more, wrapping past zero to one, so that a
/// generation is never zero.
pub open spec fn next_generation(g: u64) -> u64 {
    if g == u64::MAX {
        1
    } else {
        (g + 1) as u64
    }
}

/// A fresh generation differs from the one before it and from zero.
pub proof fn lemma_next_generation_is_fresh(g: u64)
    ensures
        next_generation(g) != g,
        next_generation(g) != 0,
{
}

fn bump(g: u64) -> (r: u64)
    ensures
        r == next_generation(g),
{
    if g == u64::MAX {
        1
    } else {
        g + 1
    }
}

/// The token of one ACP operation.
#[derive(Clone, Copy, Debug, PartialEq, Eq, Structural)]
pub struct AcpOperationToken(pub u64);

/// The ACP session being created for a panel session, by one operation.
#[derive(Debug)]
pub struct AcpSessionTransition {
    pub operation: AcpOperationToken,
    pub agent_id: String,
    pub session_uid: String,
    pub phase: AcpSessionTransitionPhase,
}

pub struct TransitionView {
    pub operation: u64,
    pub agent_id: Seq<char>,
    pub session_uid: Seq<char>,
    pub phase: AcpSessionTransitionPhase,
}

impl View for AcpSessionTransition {
    type V = TransitionView;

    open spec fn view(&self) -> TransitionView {
        TransitionView {
            operation: self.operation.0,
            agent_id: self.agent_id@,
            session_uid: self.session_uid@,
            phase: self.phase,
        }
    }
}

pub open spec fn transition_view(t: Option<AcpSessionTransition>) -> Option<TransitionView> {
    match t {
        Some(x) => Some(x@),
        None => None,
    }
}

/// What the panel points at when an ACP callback arrives.
pub struct AcpRoute {
    pub backend: Backend,
    pub current_acp_id: Option<String>,
    pub current_session: String,
    pub closed_sessions: Vec<String>,
    pub connecting_id: Option<String>,
    pub connect_origin_session: Option<String>,
}

/// The generations of the panel.
pub struct OperationGenerations {
    pub local: Vec<(String, u64)>,
    pub acp: u64,
    pub transition: Option<AcpSessionTransition>,
}

pub open spec fn entry_views(s: Seq<(String, u64)>) -> Seq<(Seq<char>, u64)> {
    s.map_values(|e: (String, u64)| (e.0@, e.1))
}

pub open spec fn key_is(uid: Seq<char>) -> spec_fn((Seq<char>, u64)) -> bool {
    |e: (Seq<char>, u64)| e.0 == uid
}

/// The local generation of a session, if it has one.
pub open spec fn local_generation(entries: Seq<(Seq<char>, u64)>, uid: Seq<char>) -> Option<u64> {
    match first_index(entries, key_is(uid)) {
        Some(i) => Some(entries[i].1),
        None => None,
    }
}

pub open spec fn unwrap_or_zero(g: Option<u64>) -> u64 {
    match g {
        Some(x) => x,
        None => 0,
    }
}

impl OperationGenerations {
    pub open spec fn local_of(&self, uid: Seq<char>) -> Option<u64> {
        local_generation(entry_views(self.local@), uid)
    }

    pub fn new() -> (r: Self)
        ensures
            forall|uid: Seq<char>| r.local_of(uid) is None,
            r.acp == 0,
            r.transition is None,
    {
        let r = OperationGenerations { local: Vec::new(), acp: 0, transition: None };
        proof {
            assert forall|uid: Seq<char>| r.local_of(uid) is None by {
                lemma_first_index_none(entry_views(r.local@), key_is(uid));
            }
        }
        r
    }

    fn find_local(&self, uid: &str) -> (r: Option<usize>)
        ensures
            match r {
                Some(i) => i < self.local@.len() && first_index(entry_views(self.local@), key_is(uid@))
                    == Some(i as int),
                None => first_index(entry_views(self.local@), key_is(uid@)) is None,
            },
    {
        let ghost es = entry_views(self.local@);
        let n = self.local.len();
        let mut i: usize = 0;
        while i < n
            invariant
                es == entry_views(self.local@),
                n == es.len(),
                i <= n,
                forall|j: int| 0 <= j < i ==> !key_is(uid@)(#[trigger] es[j]),
            decreases n - i,
        {
            if crate::text::str_eq(self.local[i].0.as_str(), uid) {
                proof {
                    assert(is_first(es, key_is(uid@), i as int));
                    lemma_first_index_is(es, key_is(uid@), i as int);
                }
                return Some(i);
            }
            i = i + 1;
        }
        proof {
            lemma_first_index_none(es, key_is(uid@));
        }
        None
    }

    /// The local generation of a session.
    pub fn current_local_operation_generation(&self, session_uid: &str) -> (r: Option<u64>)
        ensures
            r == self.local_of(session_uid@),
    {
        match self.find_local(session_uid) {
            Some(i) => Some(self.local[i].1),
            None => None,
        }
    }

    /// Whether a local callback of `generation` still belongs to the
    /// session's current operation.
    pub fn is_current_local_operation_generation(&self, session_uid: &str, generation: u64) -> (r:
        bool)
        ensures
            r == (self.local_of(session_uid@) == Some(generation)),
    {
        match self.current_local_operation_generation(session_uid) {
            Some(g) => g == generation,
            None => false,
        }
    }

    /// Starts a new local operation of a session: its generation moves on
    /// (from zero when it had none) and is returned; other sessions keep
    /// theirs, and the ACP state is unchanged.
    pub fn next_local_operation_generation(&mut self, session_uid: &str) -> (r: u64)
        ensures
            r == next_generation(unwrap_or_zero(old(self).local_of(session_uid@))),
            forall|uid: Seq<char>|
                #[trigger] final(self).local_of(uid) == if uid == session_uid@ {
                    Some(r)
                } else {
                    old(self).local_of(uid)
                },
            final(self).acp == old(self).acp,
            transition_view(final(self).transition) == transition_view(old(self).transition),
    {
        let ghost es = entry_views(self.local@);
        match self.find_local(session_uid) {
            Some(i) => {
                let g = bump(self.local[i].1);
                self.local.set(i, (session_uid.to_owned(), g));
                proof {
                    let es2 = entry_views(self.local@);
                    assert(es2 =~= es.update(i as int, (session_uid@, g)));
                    assert forall|uid: Seq<char>| #[trigger]
                        local_generation(es2, uid) == if uid == session_uid@ {
                            Some(g)
                        } else {
                            local_generation(es, uid)
                        } by {
                        if uid == session_uid@ {
                            assert(is_first(es2, key_is(uid), i as int)) by {
                                assert forall|j: int| 0 <= j < i implies !key_is(uid)(#[trigger] es2[j]) by {
                                    assert(es2[j] == es[j]);
                                    if key_is(uid)(es[j]) {
                                        crate::transcript_model::lemma_first_index_is_some(
                                            es,
                                            key_is(uid),
                                            j,
                                        );
                                        let c = choose|k: int| is_first(es, key_is(uid), k);
                                        assert(is_first(es, key_is(uid), c));
                                    }
                                }
                            }
                            lemma_first_index_is(es2, key_is(uid), i as int);
                        } else {
                            let pr = key_is(uid);
                            assert forall|j: int| 0 <= j < es.len() implies #[trigger] pr(es2[j])
                                == pr(es[j]) by {
                                if j == i {
                                    assert(es[i as int].0 == session_uid@);
                                }
                            }
                            match first_index(es, pr) {
                                Some(k) => {
                                    let c = choose|q: int| is_first(es, pr, q);
                                    assert(is_first(es, pr, c));
                                    assert(is_first(es2, pr, c));
                                    lemma_first_index_is(es2, pr, c);
                                    assert(es2[c] == es[c]) by {
                                        if c == i {
                                            assert(pr(es[i as int]));
                                        }
                                    }
                                },
                                None => {
                                    assert forall|j: int| 0 <= j < es2.len() implies !pr(
                                        #[trigger] es2[j],
                                    ) by {
                                        if pr(es[j]) {
                                            crate::transcript_model::lemma_first_index_is_some(es, pr, j);
                                        }
                                    }
                                    lemma_first_index_none(es2, pr);
                                },
                            }
                        }
                    }
                }
                g
            },
            None => {
                let g = bump(0);
                self.local.push((session_uid.to_owned(), g));
                proof {
                    let es2 = entry_views(self.local@);
                    assert(es2 =~= es.push((session_uid@, g)));
                    assert forall|uid: Seq<char>| #[trigger]
                        local_generation(es2, uid) == if uid == session_uid@ {
                            Some(g)
                        } else {
                            local_generation(es, uid)
                        } by {
                        let pr = key_is(uid);
                        if uid == session_uid@ {
                            assert(is_first(es2, pr, es.len() as int)) by {
                                assert forall|j: int| 0 <= j < es.len() implies !pr(#[trigger] es2[j]) by {
                                    assert(es2[j] == es[j]);
                                    if pr(es[j]) {
                                        crate::transcript_model::lemma_first_index_is_some(es, pr, j);
                                    }
                                }
                            }
                            lemma_first_index_is(es2, pr, es.len() as int);
                        } else {
                            match first_index(es, pr) {
                                Some(k) => {
                                    let c = choose|q: int| is_first(es, pr, q);
                                    assert(is_first(es, pr, c));
                                    assert(is_first(es2, pr, c));
                                    lemma_first_index_is(es2, pr, c);
                                },
                                None => {
                                    assert forall|j: int| 0 <= j < es2.len() implies !pr(
                                        #[trigger] es2[j],
                                    ) by {
                                        if j < es.len() {
                                            assert(es2[j] == es[j]);
                                            if pr(es[j]) {
                                                crate::transcript_model::lemma_first_index_is_some(
                                                    es,
                                                    pr,
                                                    j,
                                                );
                                            }
                                        }
                                    }
                                    lemma_first_index_none(es2, pr);
                                },
                            }
                        }
                    }
                }
                g
            },
        }
    }

    /// Starts a new ACP operation: any session being created is dropped and
    /// the ACP generation moves on; the token of the new generation is
    /// returned. Local generations are unchanged.
    pub fn next_acp_operation(&mut self) -> (r: AcpOperationToken)
        ensures
            final(self).acp == next_generation(old(self).acp),
            r.0 == final(self).acp,
            final(self).transition is None,
            entry_views(final(self).local@) == entry_views(old(self).local@),
    {
        self.transition = None;
        self.acp = bump(self.acp);
        AcpOperationToken(self.acp)
    }

    /// Whether an ACP callback's token is the current operation.
    pub fn is_current_acp_operation(&self, operation: AcpOperationToken) -> (r: bool)
        ensures
            r == (self.acp == operation.0),
    {
        self.acp == operation.0
    }

    /// Whether a connection callback still belongs to the current operation,
    /// to the agent being connected and to the session it was started from.
    pub fn is_current_acp_connection_operation(
        &self,
        route: &AcpRoute,
        operation: AcpOperationToken,
        agent_id: &str,
        origin_session_uid: &str,
    ) -> (r: bool)
        ensures
            r == (self.acp == operation.0 && opt_view(route.connecting_id) == Some(agent_id@)
                && opt_view(route.connect_origin_session) == Some(origin_session_uid@)),
    {
        self.is_current_acp_operation(operation) && match &route.connecting_id {
            Some(id) => crate::text::str_eq(id.as_str(), agent_id),
            None => false,
        } && match &route.connect_origin_session {
            Some(origin) => crate::text::str_eq(origin.as_str(), origin_session_uid),
            None => false,
        }
    }

    pub open spec fn session_operation_current(
        &self,
        route: &AcpRoute,
        operation: AcpOperationToken,
        agent_id: Seq<char>,
        session_uid: Seq<char>,
    ) -> bool {
        &&& self.acp == operation.0
        &&& route.backend == Backend::Acp
        &&& opt_view(route.current_acp_id) == Some(agent_id)
        &&& route.current_session@ == session_uid
        &&& !string_views(route.closed_sessions@).contains(session_uid)
    }

    /// Whether a session callback still belongs to the current operation, the
    /// ACP agent the panel uses, and the open, not closed, session.
    pub fn is_current_acp_session_operation(
        &self,
        route: &AcpRoute,
        operation: AcpOperationToken,
        agent_id: &str,
        session_uid: &str,
    ) -> (r: bool)
        ensures
            r == self.session_operation_current(route, operation, agent_id@, session_uid@),
    {
        self.is_current_acp_operation(operation) && route.backend == Backend::Acp && match &route.current_acp_id {
            Some(id) => crate::text::str_eq(id.as_str(), agent_id),
            None => false,
        } && crate::text::str_eq(route.current_session.as_str(), session_uid) && !contains_str(
            &route.closed_sessions,
            session_uid,
        )
    }

    /// Starts creating an ACP session for a panel session: a new operation,
    /// recorded with the agent and the session in the "creating" phase.
    pub fn begin_acp_session_transition(&mut self, agent_id: String, session_uid: String) -> (r:
        AcpOperationToken)
        ensures
            final(self).acp == next_generation(old(self).acp),
            r.0 == final(self).acp,
            transition_view(final(self).transition) == Some(
                TransitionView {
                    operation: r.0,
                    agent_id: agent_id@,
                    session_uid: session_uid@,
                    phase: AcpSessionTransitionPhase::Creating,
                },
            ),
            entry_views(final(self).local@) == entry_views(old(self).local@),
    {
        let operation = self.next_acp_operation();
        self.transition = Some(
            AcpSessionTransition {
                operation,
                agent_id,
                session_uid,
                phase: AcpSessionTransitionPhase::Creating,
            },
        );
        operation
    }

    pub open spec fn transition_current(
        &self,
        route: &AcpRoute,
        operation: AcpOperationToken,
        agent_id: Seq<char>,
        session_uid: Seq<char>,
    ) -> bool {
        &&& self.transition is Some
        &&& self.transition->0.operation == operation
        &&& self.transition->0.agent_id@ == agent_id
        &&& self.transition->0.session_uid@ == session_uid
        &&& self.session_operation_current(route, operation, agent_id, session_uid)
    }

    /// Whether the session being created is the one of this operation, agent
    /// and session, and that operation is still current for the session.
    pub fn is_current_acp_session_transition(
        &self,
        route: &AcpRoute,
        operation: AcpOperationToken,
        agent_id: &str,
        session_uid: &str,
    ) -> (r: bool)
        ensures
            r == self.transition_current(route, operation, agent_id@, session_uid@),
    {
        match &self.transition {
            Some(t) => t.operation == operation && crate::text::str_eq(t.agent_id.as_str(), agent_id)
                && crate::text::str_eq(t.session_uid.as_str(), session_uid)
                && self.is_current_acp_session_operation(route, operation, agent_id, session_uid),
            None => false,
        }
    }

    /// The phase of the session being created for `session_uid`, when that
    /// creation is still current.
    pub fn acp_session_transition_phase(&self, route: &AcpRoute, session_uid: &str) -> (r: Option<
        AcpSessionTransitionPhase,
    >)
        ensures
            r == (match self.transition {
                Some(t) => if self.transition_current(route, t.operation, t.agent_id@, session_uid@) {
                    Some(t.phase)
                } else {
                    None
                },
                None => None,
            }),
    {
        match &self.transition {
            Some(t) => if self.is_current_acp_session_transition(
                route,
                t.operation,
                t.agent_id.as_str(),
                session_uid,
            ) {
                Some(t.phase)
            } else {
                None
            },
            None => None,
        }
    }

    /// Marks the session being created as failed, when it is the current one
    /// of this operation, agent and session; `true` when it was marked.
    pub fn mark_acp_session_transition_failed(
        &mut self,
        route: &AcpRoute,
        operation: AcpOperationToken,
        agent_id: &str,
        session_uid: &str,
    ) -> (r: bool)
        ensures
            r == old(self).transition_current(route, operation, agent_id@, session_uid@),
            transition_view(final(self).transition) == if r {
                Some(
                    TransitionView {
                        phase: AcpSessionTransitionPhase::Failed,
                        ..transition_view(old(self).transition)->0
                    },
                )
            } else {
                transition_view(old(self).transition)
            },
            final(self).acp == old(self).acp,
            entry_views(final(self).local@) == entry_views(old(self).local@),
    {
        if !self.is_current_acp_session_transition(route, operation, agent_id, session_uid) {
            return false;
        }
        match &mut self.transition {
            Some(t) => {
                t.phase = AcpSessionTransitionPhase::Failed;
                true
            },
            None => false,
        }
    }

    /// Drops the session being created when it belongs to `operation`; `true`
    /// when it was dropped (the panel then trims its transcript cache).
    pub fn clear_acp_session_transition(&mut self, operation: AcpOperationToken) -> (r: bool)
        ensures
            r == (old(self).transition is Some && old(self).transition->0.operation == operation),
            transition_view(final(self).transition) == if r {
                None
            } else {
                transition_view(old(self).transition)
            },
            final(self).acp == old(self).acp,
            entry_views(final(self).local@) == entry_views(old(self).local@),
    {
        let matches = match &self.transition {
            Some(t) => t.operation == operation,
            None => false,
        };
        if matches {
            self.transition = None;
        }
        matches
    }
}

} // verus!
