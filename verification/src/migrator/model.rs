use vstd::prelude::*;
use crate::migrator::spec_decide_run;

verus! {

// ---------------------------------------------------------------------------
// A model of one engine run
//
// The store is modelled as the set of applied unit numbers: a unit's check
// predicate reports marker 1 when the unit's effect is present and 0 when it
// is not, an up script applies its unit, a down script reverts it. A run is
// then a mathematical function of the starting state, and what the engine
// owes a caller — skip accounting, ordering, stop limits, failure isolation —
// is stated and proved of it here.
// ---------------------------------------------------------------------------

/// The marker a unit's check predicate reports under this state
pub open spec fn model_check(state: Set<i64>, n: i64) -> int {
    if state.contains(n) {
        1
    } else {
        0
    }
}

/// What one engine run leaves behind
pub struct ModelRun {
    /// The set of applied units once the run has ended
    pub state: Set<i64>,
    /// How many units the run skipped
    pub skips: nat,
    /// The numbers of the units the run applied, in the order it ran them
    pub applied: Seq<i64>,
    /// The unit whose script failed and ended the run, if any
    pub failure: Option<i64>,
}

/// One run over the listed units, as the engine performs it: units are
/// visited in the listed order; a unit whose check says no work is owed is
/// skipped and counted; otherwise its script runs — applying the unit on the
/// way up, reverting it on the way down — unless the script is one of the
/// failing ones, which ends the run at once naming that unit, with the units
/// before it left in place and the units after it never visited. A run unit
/// equal to the stop target ends the run successfully at that point.
pub open spec fn model_migrate(
    state: Set<i64>,
    units: Seq<i64>,
    up: bool,
    stop: Option<i64>,
    failing: Set<i64>,
) -> ModelRun
    decreases units.len(),
{
    if units.len() == 0 {
        ModelRun { state, skips: 0, applied: Seq::empty(), failure: None }
    } else {
        let u = units[0];
        if !spec_decide_run(up, model_check(state, u)) {
            let rest = model_migrate(state, units.drop_first(), up, stop, failing);
            ModelRun {
                state: rest.state,
                skips: rest.skips + 1,
                applied: rest.applied,
                failure: rest.failure,
            }
        } else if failing.contains(u) {
            ModelRun { state, skips: 0, applied: Seq::empty(), failure: Some(u) }
        } else {
            let state2 = if up {
                state.insert(u)
            } else {
                state.remove(u)
            };
            if stop == Some(u) {
                ModelRun { state: state2, skips: 0, applied: seq![u], failure: None }
            } else {
                let rest = model_migrate(state2, units.drop_first(), up, stop, failing);
                ModelRun {
                    state: rest.state,
                    skips: rest.skips,
                    applied: seq![u] + rest.applied,
                    failure: rest.failure,
                }
            }
        }
    }
}

/// A full Up run from a state where none of the listed units is applied runs
/// every unit, in the listed order, with no skip and no failure, and leaves
/// exactly the listed units newly applied.
pub proof fn lemma_fresh_up_applies_all(state: Set<i64>, units: Seq<i64>)
    requires
        units.no_duplicates(),
        forall|k: int| 0 <= k < units.len() ==> !state.contains(#[trigger] units[k]),
    ensures
        ({
            let r = model_migrate(state, units, true, None, Set::empty());
            &&& r.failure is None
            &&& r.skips == 0
            &&& r.applied == units
            &&& forall|x: i64|
                r.state.contains(x) <==> (state.contains(x) || units.contains(x))
        }),
    decreases units.len(),
{
    let r = model_migrate(state, units, true, None, Set::empty());
    if units.len() == 0 {
        assert(r.applied =~= units);
        assert(forall|x: i64| units.contains(x) ==> exists|k: int|
            0 <= k < units.len() && units[k] == x);
    } else {
        let u = units[0];
        assert(!state.contains(u));
        assert(spec_decide_run(true, model_check(state, u)));
        let state2 = state.insert(u);
        let rest_units = units.drop_first();
        assert forall|k: int| 0 <= k < rest_units.len() implies !state2.contains(
            #[trigger] rest_units[k],
        ) by {
            assert(rest_units[k] == units[k + 1]);
            assert(units[k + 1] != u);
        }
        lemma_fresh_up_applies_all(state2, rest_units);
        let rest = model_migrate(state2, rest_units, true, None, Set::empty());
        assert(r.applied =~= units) by {
            assert(r.applied == seq![u] + rest.applied);
            assert(rest.applied == rest_units);
        }
        assert forall|x: i64| r.state.contains(x) <==> (state.contains(x) || units.contains(
            x,
        )) by {
            assert(r.state == rest.state);
            if state.contains(x) || units.contains(x) {
                if units.contains(x) {
                    let k = choose|k: int| 0 <= k < units.len() && (#[trigger] units[k]) == x;
                    if k == 0 {
                        assert(state2.contains(x));
                    } else {
                        assert(rest_units[k - 1] == x);
                        assert(rest_units.contains(x));
                    }
                } else {
                    assert(state2.contains(x));
                }
                assert(rest.state.contains(x));
            } else {
                assert(!state2.contains(x));
                assert(!rest_units.contains(x)) by {
                    if rest_units.contains(x) {
                        let q = choose|q: int|
                            0 <= q < rest_units.len() && (#[trigger] rest_units[q]) == x;
                        assert(units[q + 1] == x);
                        assert(units.contains(x));
                    }
                }
                assert(!rest.state.contains(x));
            }
        }
    }
}

/// A full Down run from a state where every listed unit is applied reverts
/// every unit, in the listed order, with no skip and no failure, and leaves
/// exactly the listed units no longer applied.
pub proof fn lemma_applied_down_reverts_all(state: Set<i64>, units: Seq<i64>)
    requires
        units.no_duplicates(),
        forall|k: int| 0 <= k < units.len() ==> state.contains(#[trigger] units[k]),
    ensures
        ({
            let r = model_migrate(state, units, false, None, Set::empty());
            &&& r.failure is None
            &&& r.skips == 0
            &&& r.applied == units
            &&& forall|x: i64|
                r.state.contains(x) <==> (state.contains(x) && !units.contains(x))
        }),
    decreases units.len(),
{
    let r = model_migrate(state, units, false, None, Set::empty());
    if units.len() == 0 {
        assert(r.applied =~= units);
        assert(forall|x: i64| units.contains(x) ==> exists|k: int|
            0 <= k < units.len() && units[k] == x);
    } else {
        let u = units[0];
        assert(state.contains(u));
        assert(spec_decide_run(false, model_check(state, u)));
        let state2 = state.remove(u);
        let rest_units = units.drop_first();
        assert forall|k: int| 0 <= k < rest_units.len() implies state2.contains(
            #[trigger] rest_units[k],
        ) by {
            assert(rest_units[k] == units[k + 1]);
            assert(units[k + 1] != u);
        }
        lemma_applied_down_reverts_all(state2, rest_units);
        let rest = model_migrate(state2, rest_units, false, None, Set::empty());
        assert(r.applied =~= units) by {
            assert(r.applied == seq![u] + rest.applied);
            assert(rest.applied == rest_units);
        }
        assert forall|x: i64| r.state.contains(x) <==> (state.contains(x) && !units.contains(
            x,
        )) by {
            if units.contains(x) {
                let k = choose|k: int| 0 <= k < units.len() && units[k] == x;
                if k == 0 {
                    assert(!state2.contains(x));
                    assert(!rest_units.contains(x)) by {
                        if rest_units.contains(x) {
                            let q = choose|q: int|
                                0 <= q < rest_units.len() && rest_units[q] == x;
                            assert(units[q + 1] == x);
                        }
                    }
                } else {
                    assert(rest_units[k - 1] == x);
                    assert(rest_units.contains(x));
                }
            }
            if !r.state.contains(x) && state.contains(x) {
                if x == u {
                    assert(units[0] == x);
                    assert(units.contains(x));
                } else if rest_units.contains(x) {
                    let k = choose|k: int| 0 <= k < rest_units.len() && rest_units[k] == x;
                    assert(units[k + 1] == x);
                    assert(units.contains(x));
                } else {
                    assert(state2.contains(x));
                    assert(r.state.contains(x));
                }
            }
        }
    }
}

/// Round trip: a full Up run from a state where none of the listed units is
/// applied, followed by a full Down run over the reversed order, skips
/// nothing and fails nowhere in either pass, and puts every unit's check
/// predicate back to its original "not applied" marker.
pub proof fn lemma_round_trip(state: Set<i64>, units: Seq<i64>)
    requires
        units.no_duplicates(),
        forall|k: int| 0 <= k < units.len() ==> !state.contains(#[trigger] units[k]),
    ensures
        ({
            let upr = model_migrate(state, units, true, None, Set::empty());
            let downr = model_migrate(upr.state, units.reverse(), false, None, Set::empty());
            &&& upr.failure is None
            &&& upr.skips == 0
            &&& upr.applied == units
            &&& downr.failure is None
            &&& downr.skips == 0
            &&& downr.applied == units.reverse()
            &&& forall|k: int|
                0 <= k < units.len() ==> model_check(downr.state, #[trigger] units[k]) == 0
                    && model_check(state, units[k]) == 0
        }),
{
    lemma_fresh_up_applies_all(state, units);
    let upr = model_migrate(state, units, true, None, Set::empty());
    let rev = units.reverse();
    assert forall|p: int, q: int|
        0 <= p < rev.len() && 0 <= q < rev.len() && p != q implies (#[trigger] rev[p]) != (
    #[trigger] rev[q]) by {
        assert(rev[p] == units[units.len() - 1 - p]);
        assert(rev[q] == units[units.len() - 1 - q]);
    }
    assert forall|k: int| 0 <= k < rev.len() implies upr.state.contains(#[trigger] rev[k]) by {
        assert(rev[k] == units[units.len() - 1 - k]);
        assert(units.contains(units[units.len() - 1 - k]));
    }
    lemma_applied_down_reverts_all(upr.state, rev);
    let downr = model_migrate(upr.state, rev, false, None, Set::empty());
    assert forall|k: int| 0 <= k < units.len() implies model_check(
        downr.state,
        #[trigger] units[k],
    ) == 0 && model_check(state, units[k]) == 0 by {
        assert(rev[units.len() - 1 - k] == units[k]);
        assert(rev.contains(units[k]));
        assert(!downr.state.contains(units[k]));
    }
}

/// Stop limits: an Up run from a state where none of the listed units is
/// applied, with a stop target equal to the unit at position `j`, applies
/// exactly the units up to and through position `j`, in order, with no skip
/// and no failure; the units after position `j` are never visited, and the
/// state gains exactly the units through position `j`.
pub proof fn lemma_stop_at(state: Set<i64>, units: Seq<i64>, j: int)
    requires
        units.no_duplicates(),
        forall|k: int| 0 <= k < units.len() ==> !state.contains(#[trigger] units[k]),
        0 <= j < units.len(),
    ensures
        ({
            let r = model_migrate(state, units, true, Some(units[j]), Set::empty());
            &&& r.failure is None
            &&& r.skips == 0
            &&& r.applied == units.take(j + 1)
            &&& forall|x: i64|
                r.state.contains(x) <==> (state.contains(x) || units.take(j + 1).contains(x))
        }),
    decreases units.len(),
{
    let r = model_migrate(state, units, true, Some(units[j]), Set::empty());
    let u = units[0];
    assert(!state.contains(u));
    assert(spec_decide_run(true, model_check(state, u)));
    let state2 = state.insert(u);
    let taken = units.take(j + 1);
    if j == 0 {
        assert(r.applied =~= taken);
        assert forall|x: i64| r.state.contains(x) <==> (state.contains(x) || taken.contains(
            x,
        )) by {
            assert(r.state == state2);
            assert(taken[0] == u);
            if taken.contains(x) {
                let k = choose|k: int| 0 <= k < taken.len() && (#[trigger] taken[k]) == x;
                assert(x == u);
            }
            if x == u {
                assert(taken.contains(x));
            }
        }
    } else {
        assert(units[j] != u);
        let rest_units = units.drop_first();
        assert forall|k: int| 0 <= k < rest_units.len() implies !state2.contains(
            #[trigger] rest_units[k],
        ) by {
            assert(rest_units[k] == units[k + 1]);
            assert(units[k + 1] != u);
        }
        assert(rest_units[j - 1] == units[j]);
        lemma_stop_at(state2, rest_units, j - 1);
        let rest = model_migrate(state2, rest_units, true, Some(units[j]), Set::empty());
        assert(r.applied =~= taken) by {
            assert(r.applied == seq![u] + rest.applied);
            assert(rest.applied == rest_units.take(j));
            assert(forall|k: int| 0 <= k < j ==> (#[trigger] rest_units.take(j)[k]) == units[k + 1]);
        }
        assert forall|x: i64| r.state.contains(x) <==> (state.contains(x) || taken.contains(
            x,
        )) by {
            assert(r.state == rest.state);
            let rtaken = rest_units.take(j);
            if state.contains(x) || taken.contains(x) {
                if taken.contains(x) {
                    let k = choose|k: int| 0 <= k < taken.len() && (#[trigger] taken[k]) == x;
                    assert(taken[k] == units[k]);
                    if k == 0 {
                        assert(state2.contains(x));
                    } else {
                        assert(rtaken[k - 1] == x);
                        assert(rtaken.contains(x));
                    }
                } else {
                    assert(state2.contains(x));
                }
                assert(rest.state.contains(x));
            } else {
                assert(taken[0] == u);
                assert(x != u);
                assert(!state2.contains(x));
                assert(!rtaken.contains(x)) by {
                    if rtaken.contains(x) {
                        let q = choose|q: int|
                            0 <= q < rtaken.len() && (#[trigger] rtaken[q]) == x;
                        assert(taken[q + 1] == x);
                        assert(taken.contains(x));
                    }
                }
                assert(!rest.state.contains(x));
            }
        }
    }
}

/// Failure isolation: an Up run from a state where none of the listed units
/// is applied, whose first failing script belongs to the unit at position
/// `j`, ends naming exactly that unit; the units before position `j` were
/// applied, in order, and stay applied; the units after position `j` are
/// never visited.
pub proof fn lemma_failure_isolation(state: Set<i64>, units: Seq<i64>, failing: Set<i64>, j: int)
    requires
        units.no_duplicates(),
        forall|k: int| 0 <= k < units.len() ==> !state.contains(#[trigger] units[k]),
        0 <= j < units.len(),
        failing.contains(units[j]),
        forall|k: int| 0 <= k < j ==> !failing.contains(#[trigger] units[k]),
    ensures
        ({
            let r = model_migrate(state, units, true, None, failing);
            &&& r.failure == Some(units[j])
            &&& r.applied == units.take(j)
            &&& forall|x: i64|
                r.state.contains(x) <==> (state.contains(x) || units.take(j).contains(x))
        }),
    decreases units.len(),
{
    let r = model_migrate(state, units, true, None, failing);
    let u = units[0];
    assert(!state.contains(u));
    assert(spec_decide_run(true, model_check(state, u)));
    let taken = units.take(j);
    if j == 0 {
        assert(r.failure == Some(units[0]));
        assert(r.applied =~= taken);
        assert forall|x: i64| r.state.contains(x) <==> (state.contains(x) || taken.contains(
            x,
        )) by {
            assert(r.state == state);
            assert(taken.len() == 0);
            if taken.contains(x) {
                let k = choose|k: int| 0 <= k < taken.len() && (#[trigger] taken[k]) == x;
            }
        }
    } else {
        assert(!failing.contains(u));
        let state2 = state.insert(u);
        let rest_units = units.drop_first();
        assert forall|k: int| 0 <= k < rest_units.len() implies !state2.contains(
            #[trigger] rest_units[k],
        ) by {
            assert(rest_units[k] == units[k + 1]);
            assert(units[k + 1] != u);
        }
        assert(rest_units[j - 1] == units[j]);
        assert forall|k: int| 0 <= k < j - 1 implies !failing.contains(
            #[trigger] rest_units[k],
        ) by {
            assert(rest_units[k] == units[k + 1]);
        }
        lemma_failure_isolation(state2, rest_units, failing, j - 1);
        let rest = model_migrate(state2, rest_units, true, None, failing);
        assert(r.applied =~= taken) by {
            assert(r.applied == seq![u] + rest.applied);
            assert(rest.applied == rest_units.take(j - 1));
            assert(forall|k: int| 0 <= k < j - 1 ==> (#[trigger] rest_units.take(j - 1)[k]) == units[k + 1]);
        }
        assert forall|x: i64| r.state.contains(x) <==> (state.contains(x) || taken.contains(
            x,
        )) by {
            assert(r.state == rest.state);
            let rtaken = rest_units.take(j - 1);
            if state.contains(x) || taken.contains(x) {
                if taken.contains(x) {
                    let k = choose|k: int| 0 <= k < taken.len() && (#[trigger] taken[k]) == x;
                    assert(taken[k] == units[k]);
                    if k == 0 {
                        assert(state2.contains(x));
                    } else {
                        assert(rtaken[k - 1] == x);
                        assert(rtaken.contains(x));
                    }
                } else {
                    assert(state2.contains(x));
                }
                assert(rest.state.contains(x));
            } else {
                assert(taken[0] == u);
                assert(x != u);
                assert(!state2.contains(x));
                assert(!rtaken.contains(x)) by {
                    if rtaken.contains(x) {
                        let q = choose|q: int|
                            0 <= q < rtaken.len() && (#[trigger] rtaken[q]) == x;
                        assert(taken[q + 1] == x);
                        assert(taken.contains(x));
                    }
                }
                assert(!rest.state.contains(x));
            }
        }
    }
}

} // verus!
