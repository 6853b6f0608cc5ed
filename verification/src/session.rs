//! The lifecycle verifier: a linear, single-pass state machine.
//!
//! One verification run walks
//! `Idle -> Baseline -> Launching -> SettleJoin -> VerifyPresent ->
//! Terminating -> SettleLeave -> VerifyAbsent -> Done`,
//! and any failed assertion or collaborator failure moves to the terminal
//! `Failed` state; there is no retry and no recovery.
//!
//! The session decides; its caller performs. Each phase names, through
//! [`Session::next_action`], the one outside action to perform (take a
//! registry snapshot, launch the process, wait a settle interval, resolve the
//! directory, terminate the process), and the caller reports the outcome back
//! through the corresponding method, which moves the machine on.
//!
//! The post-termination absence check is canonically the resolved-name check:
//! after terminate and settle, no mapping entry's name may match the target.
//! (The variant that compares the registry tail against the baseline is
//! available separately as [`Session::baseline_matches`]; the two checks are
//! not equivalent and are not both asserted by one run.)

use vstd::prelude::*;

use crate::bytes::{bytes_dup, bytes_eq, contains_bytes_ci, opt_bytes_dup};
use crate::peer::{opt_view, Peer};
use crate::registry::{last_id, views_of};
use crate::resolver::{
    any_name_contains_ci, any_name_matches, entry_views_of, lookup, lookup_name, MappingEntry,
};

verus! {

/// Where a verification run stands. Phases before `Done` name the step about
/// to be performed; `Done` and `Failed` are terminal.
#[derive(Clone, Copy, Debug, PartialEq, Eq, Structural)]
pub enum Phase {
    Idle,
    Baseline,
    Launching,
    SettleJoin,
    VerifyPresent,
    Terminating,
    SettleLeave,
    VerifyAbsent,
    Done,
    Failed,
}

/// The one outside action the caller must perform next.
#[derive(Clone, Copy, Debug, PartialEq, Eq, Structural)]
pub enum Action {
    /// Take a registry snapshot and hand it to [`Session::capture_baseline`].
    TakeSnapshot,
    /// Launch the target process; report through [`Session::note_launched`].
    Launch,
    /// Wait one settle interval; report through [`Session::note_settled`].
    Wait,
    /// Resolve the directory; hand the result to [`Session::verify_present`]
    /// or [`Session::verify_absent`], whichever the phase asks for.
    Resolve,
    /// Terminate and reap the launched process; report through
    /// [`Session::note_terminated`].
    Terminate,
    /// Nothing: the run has ended.
    Finish,
}

/// The action each phase asks for.
pub open spec fn action_for(phase: Phase) -> Action {
    match phase {
        Phase::Idle => Action::Finish,
        Phase::Baseline => Action::TakeSnapshot,
        Phase::Launching => Action::Launch,
        Phase::SettleJoin => Action::Wait,
        Phase::VerifyPresent => Action::Resolve,
        Phase::Terminating => Action::Terminate,
        Phase::SettleLeave => Action::Wait,
        Phase::VerifyAbsent => Action::Resolve,
        Phase::Done => Action::Finish,
        Phase::Failed => Action::Finish,
    }
}

/// The presence assertion: the registry holds a newest peer, the directory
/// lists a name under its identifier, and that name contains the target
/// case-insensitively.
pub open spec fn present_check(
    snapshot: Seq<crate::peer::PeerView>,
    mapping: Seq<crate::resolver::MappingEntryView>,
    target: Seq<u8>,
) -> bool {
    &&& snapshot.len() > 0
    &&& match lookup(mapping, snapshot.last().id) {
        Some(name) => crate::bytes::contains_ci(name, target),
        None => false,
    }
}

/// The absence assertion: no listed name matches the target any more.
pub open spec fn absent_check(
    mapping: Seq<crate::resolver::MappingEntryView>,
    target: Seq<u8>,
) -> bool {
    !any_name_matches(mapping, target)
}

/// One verification run: target application, optional launch argument, the
/// phase reached, the pre-launch baseline fingerprint, and the identifier and
/// observed name of the peer under verification.
pub struct Session {
    /// Name of the application under verification.
    pub target: Vec<u8>,
    /// Optional single launch argument.
    pub arg: Option<Vec<u8>>,
    /// Where the run stands.
    pub phase: Phase,
    /// Identifier of the registry's most recent entry, captured before the
    /// launch; `None` for an empty registry.
    pub baseline: Option<Vec<u8>>,
    /// Identifier of the newest peer observed at the presence check.
    pub candidate: Option<Vec<u8>>,
    /// The human-readable name the newest peer resolved to at the presence
    /// check, for the expected-versus-observed failure message; `None` where
    /// nothing resolved.
    pub observed: Option<Vec<u8>>,
}

impl Session {
    /// A fresh run for one target application, not yet started.
    pub fn new(target: Vec<u8>, arg: Option<Vec<u8>>) -> (s: Session)
        ensures
            s.phase == Phase::Idle,
            s.target@ == target@,
            opt_view(s.arg) == opt_view(arg),
            s.baseline is None,
            s.candidate is None,
            s.observed is None,
    {
        Session { target, arg, phase: Phase::Idle, baseline: None, candidate: None, observed: None }
    }

    /// The one outside action the caller must perform next.
    pub fn next_action(&self) -> (a: Action)
        ensures
            a == action_for(self.phase),
    {
        match self.phase {
            Phase::Idle => Action::Finish,
            Phase::Baseline => Action::TakeSnapshot,
            Phase::Launching => Action::Launch,
            Phase::SettleJoin => Action::Wait,
            Phase::VerifyPresent => Action::Resolve,
            Phase::Terminating => Action::Terminate,
            Phase::SettleLeave => Action::Wait,
            Phase::VerifyAbsent => Action::Resolve,
            Phase::Done => Action::Finish,
            Phase::Failed => Action::Finish,
        }
    }

    /// Begin the run: move to the baseline capture.
    pub fn start(&mut self)
        requires
            old(self).phase == Phase::Idle,
        ensures
            final(self).phase == Phase::Baseline,
            final(self).target == old(self).target,
            final(self).arg == old(self).arg,
            final(self).baseline == old(self).baseline,
            final(self).candidate == old(self).candidate,
            final(self).observed == old(self).observed,
    {
        self.phase = Phase::Baseline;
    }

    /// Record the pre-launch fingerprint: the identifier of the registry's
    /// most recent entry, or the empty sentinel if there is none.
    pub fn capture_baseline(&mut self, snapshot: &Vec<Peer>)
        requires
            old(self).phase == Phase::Baseline,
        ensures
            final(self).phase == Phase::Launching,
            opt_view(final(self).baseline) == last_id(views_of(snapshot@)),
            final(self).target == old(self).target,
            final(self).arg == old(self).arg,
            final(self).candidate == old(self).candidate,
            final(self).observed == old(self).observed,
    {
        let n = snapshot.len();
        if n == 0 {
            self.baseline = None;
        } else {
            self.baseline = Some(bytes_dup(&snapshot[n - 1].id));
            proof {
                assert(views_of(snapshot@).last() == snapshot@[n - 1]@);
            }
        }
        self.phase = Phase::Launching;
    }

    /// The launcher reported: on success the run settles into the join wait,
    /// a launch failure is fatal.
    pub fn note_launched(&mut self, ok: bool)
        requires
            old(self).phase == Phase::Launching,
        ensures
            final(self).phase == if ok {
                Phase::SettleJoin
            } else {
                Phase::Failed
            },
            final(self).target == old(self).target,
            final(self).arg == old(self).arg,
            final(self).baseline == old(self).baseline,
            final(self).candidate == old(self).candidate,
            final(self).observed == old(self).observed,
    {
        self.phase = if ok {
            Phase::SettleJoin
        } else {
            Phase::Failed
        };
    }

    /// A settle interval elapsed: move to the verification the wait was for.
    pub fn note_settled(&mut self)
        requires
            old(self).phase == Phase::SettleJoin || old(self).phase == Phase::SettleLeave,
        ensures
            old(self).phase == Phase::SettleJoin ==> final(self).phase == Phase::VerifyPresent,
            old(self).phase == Phase::SettleLeave ==> final(self).phase == Phase::VerifyAbsent,
            final(self).target == old(self).target,
            final(self).arg == old(self).arg,
            final(self).baseline == old(self).baseline,
            final(self).candidate == old(self).candidate,
            final(self).observed == old(self).observed,
    {
        self.phase = if matches!(self.phase, Phase::SettleJoin) {
            Phase::VerifyPresent
        } else {
            Phase::VerifyAbsent
        };
    }

    /// The presence assertion: the newest registry entry must resolve, and
    /// its resolved name must contain the target case-insensitively. On
    /// success the newest identifier is kept as the candidate and the run
    /// moves to termination; any mismatch is fatal.
    pub fn verify_present(&mut self, snapshot: &Vec<Peer>, mapping: &Vec<MappingEntry>)
        requires
            old(self).phase == Phase::VerifyPresent,
        ensures
            final(self).phase == if present_check(
                views_of(snapshot@),
                entry_views_of(mapping@),
                old(self).target@,
            ) {
                Phase::Terminating
            } else {
                Phase::Failed
            },
            opt_view(final(self).candidate) == last_id(views_of(snapshot@)),
            opt_view(final(self).observed) == match last_id(views_of(snapshot@)) {
                Some(id) => lookup(entry_views_of(mapping@), id),
                None => None::<Seq<u8>>,
            },
            final(self).target == old(self).target,
            final(self).arg == old(self).arg,
            final(self).baseline == old(self).baseline,
    {
        let n = snapshot.len();
        if n == 0 {
            self.candidate = None;
            self.observed = None;
            self.phase = Phase::Failed;
            return;
        }
        let newest = &snapshot[n - 1];
        proof {
            assert(views_of(snapshot@).last() == snapshot@[n - 1]@);
        }
        self.candidate = Some(bytes_dup(&newest.id));
        let resolved = lookup_name(mapping, &newest.id);
        let ok = match resolved {
            Some(name) => contains_bytes_ci(name, &self.target),
            None => false,
        };
        self.observed = match resolved {
            Some(name) => Some(bytes_dup(name)),
            None => None,
        };
        self.phase = if ok {
            Phase::Terminating
        } else {
            Phase::Failed
        };
    }

    /// The launcher reported on terminate-and-reap: on success the run
    /// settles into the leave wait, a signal or reap failure is fatal.
    pub fn note_terminated(&mut self, ok: bool)
        requires
            old(self).phase == Phase::Terminating,
        ensures
            final(self).phase == if ok {
                Phase::SettleLeave
            } else {
                Phase::Failed
            },
            final(self).target == old(self).target,
            final(self).arg == old(self).arg,
            final(self).baseline == old(self).baseline,
            final(self).candidate == old(self).candidate,
            final(self).observed == old(self).observed,
    {
        self.phase = if ok {
            Phase::SettleLeave
        } else {
            Phase::Failed
        };
    }

    /// The absence assertion: after terminate and settle, no listed name may
    /// match the target any more. Success ends the run in `Done`, a leftover
    /// match is fatal.
    pub fn verify_absent(&mut self, mapping: &Vec<MappingEntry>)
        requires
            old(self).phase == Phase::VerifyAbsent,
        ensures
            final(self).phase == if absent_check(entry_views_of(mapping@), old(self).target@) {
                Phase::Done
            } else {
                Phase::Failed
            },
            final(self).target == old(self).target,
            final(self).arg == old(self).arg,
            final(self).baseline == old(self).baseline,
            final(self).candidate == old(self).candidate,
            final(self).observed == old(self).observed,
    {
        let found = any_name_contains_ci(mapping, &self.target);
        self.phase = if found {
            Phase::Failed
        } else {
            Phase::Done
        };
    }

    /// The baseline-restoration check, the variant absence criterion: the
    /// registry's most recent identifier equals the pre-launch fingerprint
    /// (both empty counts as equal).
    pub fn baseline_matches(&self, snapshot: &Vec<Peer>) -> (r: bool)
        ensures
            r == (opt_view(self.baseline) == last_id(views_of(snapshot@))),
    {
        let n = snapshot.len();
        match &self.baseline {
            None => {
                if n == 0 {
                    true
                } else {
                    proof {
                        assert(last_id(views_of(snapshot@)) is Some);
                    }
                    false
                }
            },
            Some(base) => {
                if n == 0 {
                    false
                } else {
                    proof {
                        assert(views_of(snapshot@).last() == snapshot@[n - 1]@);
                    }
                    bytes_eq(base, &snapshot[n - 1].id)
                }
            },
        }
    }

    /// The run ended with every assertion passed.
    pub fn passed(&self) -> (r: bool)
        ensures
            r == (self.phase == Phase::Done),
    {
        matches!(self.phase, Phase::Done)
    }

    /// The run ended on a failed assertion or a collaborator failure.
    pub fn failed(&self) -> (r: bool)
        ensures
            r == (self.phase == Phase::Failed),
    {
        matches!(self.phase, Phase::Failed)
    }

    /// An independent copy of the pre-launch fingerprint.
    pub fn baseline_id(&self) -> (r: Option<Vec<u8>>)
        ensures
            opt_view(r) == opt_view(self.baseline),
    {
        opt_bytes_dup(&self.baseline)
    }
}

} // verus!
