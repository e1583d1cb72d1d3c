//! The engine's guarantees, stated and proved once and for all over the
//! runner's semantics: ordering, idempotence, per-step atomicity,
//! backfill-only updates, and monotonic resumability.
//!
//! Each law is a public proof function; its statement is the contract, its
//! body the proof. `migrate`'s own contract ties the executable runner to
//! `run_steps`, so everything shown here holds of the running code.

use crate::registry::StepV;
use crate::registry::steps_wf;
use crate::runner::MigrationError;
use crate::runner::run_steps;
use crate::store::StatementV;
use crate::store::StoreError;
use crate::store::StoreV;
use crate::store::ValueV;
use crate::store::apply_script;
use crate::store::apply_stmt;
use crate::store::col_index;
use crate::store::col_named;
use crate::store::lemma_first_where;
use crate::store::named;
use crate::store::store_wf;
use crate::store::table_index;
use vstd::prelude::*;

verus! {

/// A statement never touches the ledger; only the runner moves it.
proof fn lemma_apply_stmt_ledger(s: StoreV, st: StatementV)
    requires
        apply_stmt(s, st) is Ok,
    ensures
        apply_stmt(s, st)->Ok_0.ledger == s.ledger,
{
}

/// A script never touches the ledger; only the runner moves it.
proof fn lemma_apply_script_ledger(s: StoreV, sc: Seq<StatementV>)
    requires
        apply_script(s, sc) is Ok,
    ensures
        apply_script(s, sc)->Ok_0.ledger == s.ledger,
    decreases sc.len(),
{
    if sc.len() == 0 {
    } else {
        match apply_stmt(s, sc[0]) {
            Ok(s2) => {
                lemma_apply_stmt_ledger(s, sc[0]);
                lemma_apply_script_ledger(s2, sc.drop_first());
            },
            Err(_) => {},
        }
    }
}

/// The ledger never moves backwards, whether the run succeeds or fails.
pub proof fn lemma_ledger_monotone(s: StoreV, steps: Seq<StepV>)
    ensures
        run_steps(s, steps).0.ledger >= s.ledger,
    decreases steps.len(),
{
    if steps.len() == 0 {
    } else {
        let st = steps[0];
        if st.version <= s.ledger {
            lemma_ledger_monotone(s, steps.drop_first());
        } else {
            match apply_script(s, st.script) {
                Ok(s2) => {
                    lemma_apply_script_ledger(s, st.script);
                    let committed = StoreV { ledger: st.version, ..s2 };
                    lemma_ledger_monotone(committed, steps.drop_first());
                },
                Err(_) => {},
            }
        }
    }
}

/// The registry invariant survives dropping the first step.
proof fn lemma_steps_wf_drop_first(steps: Seq<StepV>)
    requires
        steps_wf(steps),
        steps.len() > 0,
    ensures
        steps_wf(steps.drop_first()),
{
    let d = steps.drop_first();
    assert forall|i: int| 0 <= i < d.len() implies (#[trigger] d[i]).version >= 1 by {
        assert(d[i] == steps[i + 1]);
    }
    assert forall|i: int, j: int| 0 <= i < j < d.len() implies (#[trigger] d[i]).version < (
    #[trigger] d[j]).version by {
        assert(d[i] == steps[i + 1]);
        assert(d[j] == steps[j + 1]);
    }
}

/// ORDERING: along any run of a valid registry, the applied versions are
/// strictly increasing — version `k+1` is never executed before version `k`
/// has committed — and every applied version exceeds the ledger the run
/// started from. This holds whether or not the run completes.
pub proof fn lemma_applied_in_order(s: StoreV, steps: Seq<StepV>)
    requires
        steps_wf(steps),
    ensures
        forall|a: int, b: int|
            0 <= a < b < run_steps(s, steps).1.len() ==> #[trigger] run_steps(s, steps).1[a]
                < #[trigger] run_steps(s, steps).1[b],
        forall|a: int|
            0 <= a < run_steps(s, steps).1.len() ==> #[trigger] run_steps(s, steps).1[a]
                > s.ledger,
    decreases steps.len(),
{
    if steps.len() == 0 {
    } else {
        let st = steps[0];
        lemma_steps_wf_drop_first(steps);
        if st.version <= s.ledger {
            lemma_applied_in_order(s, steps.drop_first());
            let vs = run_steps(s, steps).1;
            assert(vs == run_steps(s, steps.drop_first()).1);
            assert forall|a: int| 0 <= a < vs.len() implies #[trigger] vs[a] > s.ledger by {
                assert(vs[a] == run_steps(s, steps.drop_first()).1[a]);
            }
            assert forall|a: int, b: int| 0 <= a < b < vs.len() implies #[trigger] vs[a]
                < #[trigger] vs[b] by {
                assert(vs[a] == run_steps(s, steps.drop_first()).1[a]);
                assert(vs[b] == run_steps(s, steps.drop_first()).1[b]);
            }
        } else {
            match apply_script(s, st.script) {
                Ok(s2) => {
                    lemma_apply_script_ledger(s, st.script);
                    let committed = StoreV { ledger: st.version, ..s2 };
                    lemma_applied_in_order(committed, steps.drop_first());
                    let rest = run_steps(committed, steps.drop_first());
                    let vs = run_steps(s, steps).1;
                    assert(vs == seq![st.version] + rest.1);
                    assert forall|a: int| 0 <= a < vs.len() implies #[trigger] vs[a]
                        > s.ledger by {
                        if a > 0 {
                            assert(vs[a] == rest.1[a - 1]);
                            assert(rest.1[a - 1] > committed.ledger);
                        }
                    }
                    assert forall|a: int, b: int| 0 <= a < b < vs.len() implies #[trigger] vs[a]
                        < #[trigger] vs[b] by {
                        assert(vs[b] == rest.1[b - 1]);
                        assert(rest.1[b - 1] > committed.ledger);
                        if a > 0 {
                            assert(vs[a] == rest.1[a - 1]);
                        }
                    }
                },
                Err(_) => {},
            }
        }
    }
}

/// The versions a run from ledger `l` still has to apply: those greater
/// than `l`, in catalog order.
pub open spec fn pending_versions(ledger: i64, steps: Seq<StepV>) -> Seq<i64>
    decreases steps.len(),
{
    if steps.len() == 0 {
        Seq::empty()
    } else if steps[0].version > ledger {
        seq![steps[0].version] + pending_versions(ledger, steps.drop_first())
    } else {
        pending_versions(ledger, steps.drop_first())
    }
}

/// When every version is pending, `pending_versions` keeps them all.
proof fn lemma_pending_all(l1: i64, l2: i64, steps: Seq<StepV>)
    requires
        forall|i: int| 0 <= i < steps.len() ==> (#[trigger] steps[i]).version > l1,
        forall|i: int| 0 <= i < steps.len() ==> (#[trigger] steps[i]).version > l2,
    ensures
        pending_versions(l1, steps) == pending_versions(l2, steps),
    decreases steps.len(),
{
    if steps.len() == 0 {
    } else {
        let d = steps.drop_first();
        assert forall|i: int| 0 <= i < d.len() implies (#[trigger] d[i]).version > l1 by {
            assert(d[i] == steps[i + 1]);
        }
        assert forall|i: int| 0 <= i < d.len() implies (#[trigger] d[i]).version > l2 by {
            assert(d[i] == steps[i + 1]);
        }
        lemma_pending_all(l1, l2, d);
    }
}

/// MONOTONIC RESUMABILITY: a run that succeeds applies exactly the pending
/// versions — those strictly above the starting ledger, however the store
/// got there — in catalog order, and leaves the ledger at the last of them
/// (or unchanged when nothing is pending). In particular, a store partially
/// migrated to version `k` and then presented with an extended registry
/// applies exactly the steps after `k` and re-runs nothing earlier.
pub proof fn lemma_applies_exactly_pending(s: StoreV, steps: Seq<StepV>)
    requires
        steps_wf(steps),
        run_steps(s, steps).2 is None,
    ensures
        run_steps(s, steps).1 == pending_versions(s.ledger, steps),
        run_steps(s, steps).0.ledger == if pending_versions(s.ledger, steps).len() > 0 {
            pending_versions(s.ledger, steps).last()
        } else {
            s.ledger
        },
    decreases steps.len(),
{
    if steps.len() == 0 {
    } else {
        let st = steps[0];
        let d = steps.drop_first();
        lemma_steps_wf_drop_first(steps);
        if st.version <= s.ledger {
            lemma_applies_exactly_pending(s, d);
        } else {
            match apply_script(s, st.script) {
                Ok(s2) => {
                    lemma_apply_script_ledger(s, st.script);
                    let committed = StoreV { ledger: st.version, ..s2 };
                    lemma_applies_exactly_pending(committed, d);
                    assert forall|i: int| 0 <= i < d.len() implies (#[trigger] d[i]).version
                        > st.version by {
                        assert(d[i] == steps[i + 1]);
                    }
                    assert forall|i: int| 0 <= i < d.len() implies (#[trigger] d[i]).version
                        > s.ledger by {
                        assert(d[i] == steps[i + 1]);
                    }
                    lemma_pending_all(st.version, s.ledger, d);
                    let vs = run_steps(s, steps).1;
                    assert(vs == seq![st.version] + pending_versions(s.ledger, d));
                    assert(pending_versions(s.ledger, steps) == seq![st.version]
                        + pending_versions(s.ledger, d));
                    if pending_versions(st.version, d).len() > 0 {
                        assert(vs.last() == pending_versions(st.version, d).last());
                    }
                },
                Err(_) => {
                    assert(false);
                },
            }
        }
    }
}

/// A store that is already current — every version in the catalog at or
/// below its ledger, however it got there — is a no-op for the runner:
/// zero steps applied, success, store untouched. Every application launch
/// after the first is this case.
pub proof fn lemma_current_store_is_noop(s: StoreV, steps: Seq<StepV>)
    requires
        forall|i: int| 0 <= i < steps.len() ==> (#[trigger] steps[i]).version <= s.ledger,
    ensures
        run_steps(s, steps).0 == s,
        run_steps(s, steps).1 == Seq::<i64>::empty(),
        run_steps(s, steps).2 is None,
    decreases steps.len(),
{
    if steps.len() == 0 {
    } else {
        let d = steps.drop_first();
        assert forall|i: int| 0 <= i < d.len() implies (#[trigger] d[i]).version <= s.ledger by {
            assert(d[i] == steps[i + 1]);
        }
        lemma_current_store_is_noop(s, d);
    }
}

/// IDEMPOTENCE: running the same registry again right after any run — one
/// that succeeded or one that stopped on a failing step — applies zero
/// steps, leaves the store exactly as the first run left it, and ends the
/// same way the first run did.
pub proof fn lemma_migrate_idempotent(s: StoreV, steps: Seq<StepV>)
    ensures
        run_steps(run_steps(s, steps).0, steps).0 == run_steps(s, steps).0,
        run_steps(run_steps(s, steps).0, steps).1 == Seq::<i64>::empty(),
        run_steps(run_steps(s, steps).0, steps).2 == run_steps(s, steps).2,
    decreases steps.len(),
{
    if steps.len() == 0 {
    } else {
        let st = steps[0];
        let d = steps.drop_first();
        if st.version <= s.ledger {
            lemma_migrate_idempotent(s, d);
            lemma_ledger_monotone(s, d);
        } else {
            match apply_script(s, st.script) {
                Ok(s2) => {
                    lemma_apply_script_ledger(s, st.script);
                    let committed = StoreV { ledger: st.version, ..s2 };
                    lemma_migrate_idempotent(committed, d);
                    lemma_ledger_monotone(committed, d);
                },
                Err(_) => {},
            }
        }
    }
}

/// ATOMICITY: when a run fails, it fails on one identified step: every
/// step before it ran to completion and committed, the store handed back
/// is exactly the one the last committed step left — no effect of the
/// failing step is visible — and the ledger sits strictly below the
/// failing version.
pub proof fn lemma_failed_step_rolls_back(s: StoreV, steps: Seq<StepV>)
    requires
        run_steps(s, steps).2 is Some,
    ensures
        run_steps(s, steps).2 matches Some(MigrationError::ExecutionFailed { version, cause })
            && exists|i: int|
            {
                &&& 0 <= i < steps.len()
                &&& (#[trigger] steps[i]).version == version
                &&& run_steps(s, steps.take(i)).2 is None
                &&& run_steps(s, steps.take(i)).0 == run_steps(s, steps).0
                &&& apply_script(run_steps(s, steps).0, steps[i].script) == Err::<
                    StoreV,
                    StoreError,
                >(cause)
                &&& run_steps(s, steps).0.ledger < version
            },
    decreases steps.len(),
{
    let st = steps[0];
    let d = steps.drop_first();
    let sf = run_steps(s, steps).0;
    if st.version <= s.ledger {
        lemma_failed_step_rolls_back(s, d);
        let e = run_steps(s, d).2;
        let i0 = choose|i: int|
            {
                &&& 0 <= i < d.len()
                &&& (#[trigger] d[i]).version == e->Some_0->ExecutionFailed_version
                &&& run_steps(s, d.take(i)).2 is None
                &&& run_steps(s, d.take(i)).0 == run_steps(s, d).0
                &&& apply_script(run_steps(s, d).0, d[i].script) == Err::<StoreV, StoreError>(
                    e->Some_0->ExecutionFailed_cause,
                )
                &&& run_steps(s, d).0.ledger < e->Some_0->ExecutionFailed_version
            };
        assert(steps[i0 + 1] == d[i0]);
        assert(steps.take(i0 + 1)[0] == steps[0]);
        assert(steps.take(i0 + 1).drop_first() =~= d.take(i0));
        assert(run_steps(s, steps.take(i0 + 1)).2 is None);
        assert(run_steps(s, steps.take(i0 + 1)).0 == sf);
    } else {
        match apply_script(s, st.script) {
            Ok(s2) => {
                let committed = StoreV { ledger: st.version, ..s2 };
                lemma_failed_step_rolls_back(committed, d);
                let e = run_steps(committed, d).2;
                let i0 = choose|i: int|
                    {
                        &&& 0 <= i < d.len()
                        &&& (#[trigger] d[i]).version == e->Some_0->ExecutionFailed_version
                        &&& run_steps(committed, d.take(i)).2 is None
                        &&& run_steps(committed, d.take(i)).0 == run_steps(committed, d).0
                        &&& apply_script(run_steps(committed, d).0, d[i].script) == Err::<
                            StoreV,
                            StoreError,
                        >(e->Some_0->ExecutionFailed_cause)
                        &&& run_steps(committed, d).0.ledger < e->Some_0->ExecutionFailed_version
                    };
                assert(steps[i0 + 1] == d[i0]);
                assert(steps.take(i0 + 1)[0] == steps[0]);
                assert(steps.take(i0 + 1).drop_first() =~= d.take(i0));
                assert(run_steps(s, steps.take(i0 + 1)).2 is None);
                assert(run_steps(s, steps.take(i0 + 1)).0 == sf);
            },
            Err(_) => {
                assert(steps.take(0) =~= Seq::<StepV>::empty());
                assert(run_steps(s, steps.take(0)).2 is None);
                assert(run_steps(s, steps.take(0)).0 == sf);
            },
        }
    }
}

/// BACKFILL-ONLY: a backfill statement never overwrites a cell that
/// already holds a value. It changes no table's name, columns or row
/// count, and in every row it touches at most the named column, only
/// where that column was null.
pub proof fn lemma_backfill_preserves_user_values(
    s: StoreV,
    table: Seq<char>,
    col: Seq<char>,
    value: ValueV,
)
    requires
        store_wf(s),
        apply_stmt(s, StatementV::BackfillWhereNull { table, col, value }) is Ok,
    ensures
        ({
            let s2 = apply_stmt(s, StatementV::BackfillWhereNull { table, col, value })->Ok_0;
            &&& s2.ledger == s.ledger
            &&& s2.tables.len() == s.tables.len()
            &&& forall|t: int|
                0 <= t < s.tables.len() ==> (#[trigger] s2.tables[t]).name == s.tables[t].name
                    && s2.tables[t].cols == s.tables[t].cols && s2.tables[t].rows.len()
                    == s.tables[t].rows.len()
            &&& forall|t: int, r: int|
                0 <= t < s.tables.len() && 0 <= r < s.tables[t].rows.len() ==> (
                #[trigger] s2.tables[t].rows[r]).len() == s.tables[t].rows[r].len()
            &&& forall|t: int, r: int, c: int|
                0 <= t < s.tables.len() && 0 <= r < s.tables[t].rows.len() && 0 <= c
                    < s.tables[t].rows[r].len() && !((#[trigger] s.tables[t].rows[r][c]) is Null)
                    ==> s2.tables[t].rows[r][c] == s.tables[t].rows[r][c]
        }),
{
    let st = StatementV::BackfillWhereNull { table, col, value };
    let s2 = apply_stmt(s, st)->Ok_0;
    let ti = table_index(s.tables, table);
    lemma_first_where(s.tables, named(table));
    let tb = s.tables[ti];
    let ci = col_index(tb.cols, col);
    lemma_first_where(tb.cols, col_named(col));
    assert forall|t: int, r: int, c: int|
        0 <= t < s.tables.len() && 0 <= r < s.tables[t].rows.len() && 0 <= c
            < s.tables[t].rows[r].len() && !((#[trigger] s.tables[t].rows[r][c]) is Null) implies
        s2.tables[t].rows[r][c] == s.tables[t].rows[r][c] by {
        if t == ti {
            assert(s.tables[t].rows[r].len() == s.tables[t].cols.len());
        }
    }
}

} // verus!
