//! The session supervisor: at most one owned child-process handle, a
//! termination request for every handle that is replaced or dropped,
//! and a one-shot connect that leaves no handle behind on failure.
//!
//! Callers serialize these transitions under one lock, so a run of the
//! supervisor is a sequence of steps; the laws at the bottom speak of
//! such sequences.

use vstd::prelude::*;
use crate::error::VpnError;

verus! {

/// Identifies one spawned child process (its process id).
pub type SessionId = u64;

/// The supervisor's whole state: the one owned handle, or none.
pub struct Supervisor {
    pub current: Option<SessionId>,
}

impl Supervisor {
    /// A fresh supervisor owns nothing.
    pub fn new() -> (s: Supervisor)
        ensures
            s.current is None,
    {
        Supervisor { current: None }
    }

    /// First half of `connect`: gives up the prior handle, to which
    /// the caller must send a termination request before spawning anew.
    /// Best-effort — a failed kill is ignored; the monitor is the
    /// source of truth.
    pub fn take_for_connect(&mut self) -> (prior: Option<SessionId>)
        ensures
            final(self).current is None,
            prior == old(self).current,
    {
        let prior = self.current;
        self.current = None;
        prior
    }

    /// Second half of `connect`: records the spawn outcome. Success
    /// stores the new handle; failure surfaces the OS detail and
    /// leaves no handle behind — connect is a one-shot.
    pub fn record_spawn(&mut self, spawn: Result<SessionId, String>) -> (r: Result<(), VpnError>)
        requires
            old(self).current is None,
        ensures
            match spawn {
                Ok(id) => final(self).current == Some(id) && r is Ok,
                Err(detail) => final(self).current is None
                    && r == Err::<(), VpnError>(VpnError::Spawn(detail)),
            },
    {
        match spawn {
            Ok(id) => {
                self.current = Some(id);
                Ok(())
            },
            Err(detail) => Err(VpnError::Spawn(detail)),
        }
    }

    /// `disconnect`: gives up the owned handle, if any, after the
    /// caller has run the privileged kill sequence. The returned
    /// handle still gets its own termination request.
    pub fn take_for_disconnect(&mut self) -> (prior: Option<SessionId>)
        ensures
            final(self).current is None,
            prior == old(self).current,
    {
        let prior = self.current;
        self.current = None;
        prior
    }
}

/// One whole `connect` call as a state transition: the prior handle is
/// given up for termination and the spawn outcome becomes the state.
pub open spec fn spec_connect_step(cur: Option<SessionId>, spawn: Option<SessionId>) -> (
    Option<SessionId>,
    Option<SessionId>,
) {
    (spawn, cur)
}

/// A run of `connect` calls: the final state, and every termination
/// request issued along the way, in order.
pub open spec fn spec_connect_run(init: Option<SessionId>, spawns: Seq<Option<SessionId>>) -> (
    Option<SessionId>,
    Seq<SessionId>,
)
    decreases spawns.len(),
{
    if spawns.len() == 0 {
        (init, Seq::empty())
    } else {
        let step = spec_connect_step(init, spawns[0]);
        let requested = match step.1 {
            Some(id) => seq![id],
            None => Seq::<SessionId>::empty(),
        };
        let rest = spec_connect_run(step.0, spawns.drop_first());
        (rest.0, requested + rest.1)
    }
}

/// At-most-one session: after any sequence of `connect` calls exactly
/// the last spawn outcome is retained, the handle held before the run
/// was sent a termination request, and so was every handle a call of
/// the run produced and a later call replaced.
pub proof fn lemma_at_most_one_session(init: Option<SessionId>, spawns: Seq<Option<SessionId>>)
    requires
        spawns.len() > 0,
    ensures
        spec_connect_run(init, spawns).0 == spawns.last(),
        init is Some ==> spec_connect_run(init, spawns).1.contains(init->0),
        forall|k: int|
            0 <= k < spawns.len() - 1 && spawns[k] is Some
                ==> spec_connect_run(init, spawns).1.contains(spawns[k]->0),
    decreases spawns.len(),
{
    let run = spec_connect_run(init, spawns);
    let requested = match init {
        Some(id) => seq![id],
        None => Seq::<SessionId>::empty(),
    };
    let rest = spec_connect_run(spawns[0], spawns.drop_first());
    if spawns.len() == 1 {
        assert(run.0 == spawns[0]);
        if init is Some {
            assert(run.1[0] == init->0);
            assert(run.1.contains(init->0));
        }
    } else {
        lemma_at_most_one_session(spawns[0], spawns.drop_first());
        assert(spawns.drop_first().last() == spawns.last());
        if init is Some {
            assert(run.1[0] == init->0);
            assert(run.1.contains(init->0));
        }
        assert forall|k: int|
            0 <= k < spawns.len() - 1 && spawns[k] is Some implies run.1.contains(
            spawns[k]->0,
        ) by {
            if k == 0 {
                assert(rest.1.contains(spawns[0]->0));
                let j = choose|j: int| 0 <= j < rest.1.len() && rest.1[j] == spawns[0]->0;
                assert(run.1[requested.len() + j] == spawns[0]->0);
            } else {
                assert(spawns.drop_first()[k - 1] == spawns[k]);
                assert(rest.1.contains(spawns[k]->0));
                let j = choose|j: int| 0 <= j < rest.1.len() && rest.1[j] == spawns[k]->0;
                assert(run.1[requested.len() + j] == spawns[k]->0);
            }
        }
    }
}

/// A second `connect` supersedes a live session: the second call
/// requests termination of the first call's handle before the state
/// takes the second spawn outcome.
pub proof fn lemma_reconnect_supersedes(init: Option<SessionId>, first: SessionId, second: SessionId)
    ensures
        spec_connect_run(init, seq![Some(first), Some(second)]).0 == Some(second),
        spec_connect_run(init, seq![Some(first), Some(second)]).1.contains(first),
{
    let spawns = seq![Some(first), Some(second)];
    lemma_at_most_one_session(init, spawns);
    assert(spawns[0] == Some(first));
    assert(spawns.last() == Some(second));
}

} // verus!
