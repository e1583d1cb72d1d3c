//! The migration runner: reconciles a target store with the registry's
//! catalog, applying each pending step exactly once, in ascending version
//! order, all-or-nothing per step, and recording progress in the ledger so
//! that repeated runs are no-ops.

use crate::registry::Registry;
use crate::registry::StepV;
use crate::store::Store;
use crate::store::StoreError;
use crate::store::StoreV;
use crate::store::apply_script;
use crate::store::empty_store;
use crate::store::exec_script;
use crate::store::lemma_apply_script_wf;
use crate::store::store_wf;
use vstd::prelude::*;

verus! {

/// Why a migration run failed. Neither kind is retried by the engine: both
/// propagate to the host, which decides whether to abort startup.
#[derive(Clone, Copy, Debug, PartialEq, Eq, Structural)]
pub enum MigrationError {
    /// The backing file could not be opened or created at all (disk,
    /// permissions, corruption). The engine itself never produces this
    /// variant: it is what a host reports when the store location is
    /// unreadable before migration can begin.
    StoreUnavailable,
    /// The step with this version was rejected by the store; no effect of
    /// that step remains.
    ExecutionFailed { version: i64, cause: StoreError },
}

/// What one run of the runner means: the store it leaves behind, the
/// versions it applied in order, and the error that stopped it, if any.
/// Steps at or below the ledger are skipped; a pending step's script either
/// commits as a whole (and the ledger moves to its version in the same
/// unit) or the run stops with the pre-step store intact.
pub open spec fn run_steps(s: StoreV, steps: Seq<StepV>) -> (StoreV, Seq<i64>, Option<
    MigrationError,
>)
    decreases steps.len(),
{
    if steps.len() == 0 {
        (s, Seq::empty(), None)
    } else {
        let st = steps[0];
        if st.version <= s.ledger {
            run_steps(s, steps.drop_first())
        } else {
            match apply_script(s, st.script) {
                Ok(s2) => {
                    let committed = StoreV { ledger: st.version, ..s2 };
                    let rest = run_steps(committed, steps.drop_first());
                    (rest.0, seq![st.version] + rest.1, rest.2)
                },
                Err(cause) => (
                    s,
                    Seq::empty(),
                    Some(MigrationError::ExecutionFailed { version: st.version, cause }),
                ),
            }
        }
    }
}

/// Bring the store up to date with the registry: skip every step already
/// recorded in the ledger, then apply the remaining steps in order, each
/// as one atomic unit that also moves the ledger. Returns how many steps
/// were applied, or the error of the first failing step, with the store
/// exactly as the last committed step left it.
pub fn migrate(store: &mut Store, registry: &Registry) -> (r: Result<usize, MigrationError>)
    requires
        store_wf(old(store)@),
    ensures
        store_wf(final(store)@),
        final(store)@ == run_steps(old(store)@, registry@).0,
        match r {
            Ok(n) => run_steps(old(store)@, registry@).2 is None && n == run_steps(
                old(store)@,
                registry@,
            ).1.len(),
            Err(e) => run_steps(old(store)@, registry@).2 == Some(e),
        },
{
    let ghost s0 = old(store)@;
    let ghost rv = registry@;
    let ghost mut done: Seq<i64> = Seq::empty();
    proof {
        assert(rv.skip(0) =~= rv);
        assert(done + run_steps(old(store)@, rv).1 =~= run_steps(old(store)@, rv).1);
    }
    let mut applied: usize = 0;
    let mut i: usize = 0;
    while i < registry.steps.len()
        invariant
            i <= registry.steps.len(),
            s0 == old(store)@,
            rv == registry@,
            rv.len() == registry.steps@.len(),
            store_wf(store@),
            applied == done.len(),
            applied <= i,
            run_steps(s0, rv).0 == run_steps(store@, rv.skip(i as int)).0,
            run_steps(s0, rv).1 == done + run_steps(store@, rv.skip(i as int)).1,
            run_steps(s0, rv).2 == run_steps(store@, rv.skip(i as int)).2,
        decreases registry.steps.len() - i,
    {
        proof {
            assert(rv[i as int] == registry.steps@[i as int]@);
            assert(rv.skip(i as int)[0] == rv[i as int]);
            assert(rv.skip(i as int).drop_first() =~= rv.skip(i as int + 1));
        }
        let step = &registry.steps[i];
        if step.version > store.ledger {
            match exec_script(store, &step.script) {
                Ok(mut s2) => {
                    proof {
                        lemma_apply_script_wf(store@, rv[i as int].script);
                    }
                    s2.ledger = step.version;
                    proof {
                        let rest = run_steps(s2@, rv.skip(i as int + 1));
                        assert(done + (seq![step.version] + rest.1) =~= (done + seq![
                            step.version,
                        ]) + rest.1);
                        done = done + seq![step.version];
                    }
                    *store = s2;
                    applied = applied + 1;
                },
                Err(e) => {
                    proof {
                        let rs = run_steps(store@, rv.skip(i as int));
                        assert(rs.0 == store@);
                        assert(rs.2 == Some(
                            MigrationError::ExecutionFailed {
                                version: rv[i as int].version,
                                cause: e,
                            },
                        ));
                    }
                    return Err(MigrationError::ExecutionFailed { version: step.version, cause: e });
                },
            }
        }
        i += 1;
    }
    proof {
        assert(rv.skip(registry.steps.len() as int) =~= Seq::<StepV>::empty());
        assert(done + Seq::<i64>::empty() =~= done);
    }
    Ok(applied)
}

/// One-call bootstrap for a host: take the store as it was opened (`None`
/// when the backing file did not exist, which yields a fresh store at
/// ledger 0), bring it up to date with the registry, and hand it back
/// ready for normal use.
pub fn init(existing: Option<Store>, registry: &Registry) -> (r: Result<Store, MigrationError>)
    requires
        existing matches Some(s) ==> store_wf(s@),
    ensures
        ({
            let s0 = match existing {
                Some(s) => s@,
                None => empty_store(),
            };
            match r {
                Ok(st) => run_steps(s0, registry@).2 is None && st@ == run_steps(
                    s0,
                    registry@,
                ).0 && store_wf(st@),
                Err(e) => run_steps(s0, registry@).2 == Some(e),
            }
        }),
{
    let mut store = match existing {
        Some(s) => s,
        None => Store::new_empty(),
    };
    match migrate(&mut store, registry) {
        Ok(_) => Ok(store),
        Err(e) => Err(e),
    }
}

} // verus!
