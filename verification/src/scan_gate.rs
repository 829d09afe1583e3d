//! Background work waits while foreground work holds it back.
use vstd::prelude::*;

verus! {

/// How many foreground sessions hold background work back.
#[derive(Debug, Clone, Copy, PartialEq, Eq, Structural)]
pub struct ScanGate {
    pub holds: u32,
}

/// What a hold or its release means for background work.
#[derive(Debug, Clone, Copy, PartialEq, Eq, Structural)]
pub enum GateChange {
    /// The first session: background work pauses.
    Engaged,
    /// The last session ended: background work resumes.
    Released,
    /// Some session still holds it back.
    Held,
}

impl Default for ScanGate {
    fn default() -> (r: ScanGate)
        ensures
            r.holds == 0,
    {
        ScanGate { holds: 0 }
    }
}

impl ScanGate {
    /// A gate that nothing holds.
    pub fn new() -> (r: ScanGate)
        ensures
            r.holds == 0,
            r.idle(),
    {
        ScanGate { holds: 0 }
    }

    /// Whether nothing is held back.
    pub open spec fn idle(self) -> bool {
        self.holds == 0
    }

    /// A foreground session starts.
    pub fn hold(&mut self) -> (r: GateChange)
        requires
            old(self).holds < u32::MAX,
        ensures
            final(self).holds == old(self).holds + 1,
            !final(self).idle(),
            r == (if old(self).idle() {
                GateChange::Engaged
            } else {
                GateChange::Held
            }),
            is_change(*old(self), true, *final(self), r),
    {
        self.holds = self.holds + 1;
        if self.holds == 1 {
            GateChange::Engaged
        } else {
            GateChange::Held
        }
    }

    /// A foreground session ends.
    pub fn release(&mut self) -> (r: GateChange)
        ensures
            final(self).holds == (if old(self).holds > 0 {
                old(self).holds - 1
            } else {
                0
            }),
            r == (if final(self).idle() {
                GateChange::Released
            } else {
                GateChange::Held
            }),
            is_change(*old(self), false, *final(self), r),
    {
        self.holds = self.holds.saturating_sub(1);
        if self.holds == 0 {
            GateChange::Released
        } else {
            GateChange::Held
        }
    }

    /// Whether background work may go on: nothing holds it back, or the scan gate
    /// is gone and would hold work up for ever.
    pub fn may_proceed(&self, gate_closed: bool) -> (r: bool)
        ensures
            r == (self.idle() || gate_closed),
    {
        self.holds == 0 || gate_closed
    }
}

/// Whether the start of a session, or the end of one, brings a gate from one state to
/// another and means the given change.
pub open spec fn is_change(
    before: ScanGate,
    starts: bool,
    after: ScanGate,
    change: GateChange,
) -> bool {
    if starts {
        &&& after.holds == before.holds + 1
        &&& change == (if before.holds == 0 {
            GateChange::Engaged
        } else {
            GateChange::Held
        })
    } else {
        &&& after.holds == (if before.holds > 0 {
            before.holds - 1
        } else {
            0
        })
        &&& change == (if after.holds == 0 {
            GateChange::Released
        } else {
            GateChange::Held
        })
    }
}

/// How many sessions hold after a history of starts (`true`) and ends
/// (`false`) from an idle gate.
pub open spec fn holds_after(history: Seq<bool>) -> nat
    decreases history.len(),
{
    if history.len() == 0 {
        0
    } else {
        let before = holds_after(history.drop_last());
        if history.last() {
            before + 1
        } else if before > 0 {
            (before - 1) as nat
        } else {
            0
        }
    }
}

/// How often `kind` occurs in a history.
pub open spec fn count_of(history: Seq<bool>, kind: bool) -> nat
    decreases history.len(),
{
    if history.len() == 0 {
        0
    } else {
        count_of(history.drop_last(), kind) + (if history.last() == kind {
            1nat
        } else {
            0nat
        })
    }
}

/// Whether no session ends that has not started.
pub open spec fn is_paired(history: Seq<bool>) -> bool
    decreases history.len(),
{
    history.len() == 0 || (is_paired(history.drop_last()) && count_of(history, false) <= count_of(
        history,
        true,
    ))
}

/// Background work waits until every session that started has ended: after
/// any history of sessions, a scan gate is held by those that have not ended yet.
pub proof fn law_every_hold_must_be_released(history: Seq<bool>)
    requires
        is_paired(history),
    ensures
        holds_after(history) == count_of(history, true) - count_of(history, false),
        holds_after(history) == 0 <==> count_of(history, true) == count_of(history, false),
    decreases history.len(),
{
    if history.len() > 0 {
        law_every_hold_must_be_released(history.drop_last());
    }
}

/// A session that starts and ends leaves the scan gate as it was. Background work
/// pauses with the first session and resumes with the end of the last, and in no other moment.
pub proof fn law_work_resumes_with_the_last_session(
    before: ScanGate,
    during: ScanGate,
    after: ScanGate,
    first: GateChange,
    second: GateChange,
)
    requires
        is_change(before, true, during, first),
        is_change(during, false, after, second),
    ensures
        after == before,
        !during.idle(),
        first == GateChange::Engaged <==> before.idle(),
        second == GateChange::Released <==> before.idle(),
        first != GateChange::Released && second != GateChange::Engaged,
{
}

/// After any history of starts and ends, a gate that was idle is held by as many sessions
/// as the history leaves.
pub proof fn law_gate_follows_its_history(
    gates: Seq<ScanGate>,
    changes: Seq<GateChange>,
    history: Seq<bool>,
)
    requires
        gates.len() == history.len() + 1,
        changes.len() == history.len(),
        gates[0].holds == 0,
        forall|i: int|
            0 <= i < history.len() ==> is_change(
                gates[i],
                history[i],
                gates[i + 1],
                #[trigger] changes[i],
            ),
    ensures
        gates.last().holds == holds_after(history),
    decreases history.len(),
{
    if history.len() > 0 {
        let n = history.len() - 1;
        let shorter = gates.drop_last();
        assert forall|i: int| 0 <= i < n implies is_change(
            shorter[i],
            history.drop_last()[i],
            shorter[i + 1],
            #[trigger] changes.drop_last()[i],
        ) by {
            assert(changes[i] == changes.drop_last()[i]);
        }
        law_gate_follows_its_history(shorter, changes.drop_last(), history.drop_last());
        assert(is_change(gates[n], history[n], gates[n + 1], changes[n]));
    }
}

/// Background work goes on exactly while no session holds it back, or once the scan
/// gate is gone.
pub proof fn law_work_waits_for_sessions(gate: &ScanGate, gone: bool, r: bool)
    requires
        call_ensures(ScanGate::may_proceed, (gate, gone), r),
    ensures
        r <==> gate.holds == 0 || gone,
{
}

} // verus!
