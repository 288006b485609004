use vstd::prelude::*;

verus! {

use crate::display::{MonitorInfo, DisplayConfiguration, CapturedDisplay, spec_disable_config};
use crate::store::{SavedSetting, store_get, lemma_upsert_get};
use crate::monitor::{ManagerView, StagedChange, spec_capture, spec_capture_store,
    spec_disable_plan, spec_disable_plan_from, spec_record_disable, spec_restore_begin,
    spec_shutdown_step, spec_shutdown_drained};

/// The configuration a capture pass over `snapshot` records for the
/// identity `k`: that of the last active, successfully queried entry
/// carrying it, or nothing.
pub open spec fn spec_captured_value(snapshot: Seq<CapturedDisplay>, k: Seq<char>) -> Option<
    DisplayConfiguration>
    decreases snapshot.len(),
{
    if snapshot.len() == 0 {
        None
    } else {
        let e = snapshot.last();
        if e.info.device_name@ == k && e.info.is_active && e.settings is Some {
            e.settings
        } else {
            spec_captured_value(snapshot.drop_last(), k)
        }
    }
}

/// What a capture pass leaves in the store for every identity:
/// exactly the captured value, and nothing where the pass recorded
/// none — the store is repopulated wholesale from the snapshot alone.
pub proof fn lemma_capture_store_get(snapshot: Seq<CapturedDisplay>, k: Seq<char>)
    ensures
        store_get(spec_capture_store(snapshot), k) == spec_captured_value(snapshot, k),
    decreases snapshot.len(),
{
    if snapshot.len() == 0 {
        assert(store_get(Seq::<SavedSetting>::empty(), k) is None);
    } else {
        lemma_capture_store_get(snapshot.drop_last(), k);
        let e = snapshot.last();
        let prefix = spec_capture_store(snapshot.drop_last());
        if e.info.is_active && e.settings is Some {
            lemma_upsert_get(prefix, e.info.device_name, e.settings->0, k);
        }
    }
}

/// With pairwise-distinct identities, the value a capture pass
/// records for entry `j`'s identity is exactly entry `j`'s.
proof fn lemma_captured_value_distinct(snapshot: Seq<CapturedDisplay>, j: int)
    requires
        0 <= j < snapshot.len(),
        snapshot[j].info.is_active,
        snapshot[j].settings is Some,
        forall|a: int, b: int|
            0 <= a < b < snapshot.len() ==> snapshot[a].info.device_name@
                != snapshot[b].info.device_name@,
    ensures
        spec_captured_value(snapshot, snapshot[j].info.device_name@) == snapshot[j].settings,
    decreases snapshot.len(),
{
    let k = snapshot[j].info.device_name@;
    if j == snapshot.len() - 1 {
    } else {
        assert(snapshot.last().info.device_name@ != k);
        assert(forall|a: int|
            0 <= a < snapshot.len() - 1 ==> snapshot.drop_last()[a] == snapshot[a]);
        lemma_captured_value_distinct(snapshot.drop_last(), j);
    }
}

/// Law: a disable pass never stages a change for a primary display.
/// Every staged change is the disable request for some display that
/// the enumeration showed as active and not primary.
pub proof fn lemma_disable_plan_spares_primary(v: ManagerView, monitors: Seq<MonitorInfo>)
    ensures
        forall|x: int|
            0 <= x < spec_disable_plan(v, monitors).len() ==> (#[trigger] spec_disable_plan(
                v,
                monitors,
            )[x]).target == spec_disable_config() && exists|i: int|
                0 <= i < monitors.len() && !monitors[i].is_primary && monitors[i].is_active
                    && spec_disable_plan(v, monitors)[x].device_name == monitors[i].device_name,
{
    if !v.displays_disabled {
        lemma_disable_plan_from_spares_primary(monitors);
    }
}

proof fn lemma_disable_plan_from_spares_primary(monitors: Seq<MonitorInfo>)
    ensures
        forall|x: int|
            0 <= x < spec_disable_plan_from(monitors).len() ==> (#[trigger] spec_disable_plan_from(
                monitors,
            )[x]).target == spec_disable_config() && exists|i: int|
                0 <= i < monitors.len() && !monitors[i].is_primary && monitors[i].is_active
                    && spec_disable_plan_from(monitors)[x].device_name == monitors[i].device_name,
    decreases monitors.len(),
{
    if monitors.len() == 0 {
    } else {
        let t = monitors.drop_last();
        lemma_disable_plan_from_spares_primary(t);
        let plan = spec_disable_plan_from(monitors);
        let rest = spec_disable_plan_from(t);
        assert(forall|a: int| 0 <= a < monitors.len() - 1 ==> t[a] == monitors[a]);
        assert forall|x: int| 0 <= x < plan.len() implies (#[trigger] plan[x]).target
            == spec_disable_config() && exists|i: int|
            0 <= i < monitors.len() && !monitors[i].is_primary && monitors[i].is_active
                && plan[x].device_name == monitors[i].device_name by {
            if x < rest.len() {
                assert(plan[x] == rest[x]);
                let w = choose|i: int|
                    0 <= i < t.len() && !t[i].is_primary && t[i].is_active && rest[x].device_name
                        == t[i].device_name;
                assert(0 <= w < monitors.len() && !monitors[w].is_primary
                    && monitors[w].is_active && plan[x].device_name == monitors[w].device_name);
            } else {
                let m = monitors.last();
                assert(!m.is_primary && m.is_active);
                assert(plan[x] == StagedChange {
                    device_name: m.device_name,
                    target: spec_disable_config(),
                });
                let w = monitors.len() - 1;
                assert(0 <= w < monitors.len() && !monitors[w].is_primary
                    && monitors[w].is_active && plan[x].device_name == monitors[w].device_name);
            }
        }
    }
}

/// Law (round trip): a capture, a disable pass, and a restoration in
/// sequence hand back, for every display that was active and
/// queryable at capture time, exactly the configuration captured for
/// it — and nothing else: an identity the capture recorded nothing
/// for has no drained entry. The drained entries are what the
/// restore stage re-applies verbatim, so with no OS rejection
/// exactly the captured displays return to their captured
/// configurations.
pub proof fn lemma_capture_disable_restore_round_trip(
    v: ManagerView,
    snapshot: Seq<CapturedDisplay>,
    accepted_count: nat,
)
    requires
        !v.displays_disabled,
        forall|a: int, b: int|
            0 <= a < b < snapshot.len() ==> snapshot[a].info.device_name@
                != snapshot[b].info.device_name@,
    ensures
        ({
            let drained = spec_record_disable(spec_capture(v, snapshot), accepted_count).store;
            forall|j: int|
                0 <= j < snapshot.len() && (#[trigger] snapshot[j]).info.is_active
                    && snapshot[j].settings is Some ==> store_get(
                    drained,
                    snapshot[j].info.device_name@,
                ) == snapshot[j].settings
        }),
        ({
            let drained = spec_record_disable(spec_capture(v, snapshot), accepted_count).store;
            forall|k: Seq<char>| #[trigger]
                store_get(drained, k) == spec_captured_value(snapshot, k)
        }),
{
    let drained = spec_record_disable(spec_capture(v, snapshot), accepted_count).store;
    assert(drained == spec_capture_store(snapshot));
    assert forall|k: Seq<char>| #[trigger]
        store_get(drained, k) == spec_captured_value(snapshot, k) by {
        lemma_capture_store_get(snapshot, k);
    }
    assert forall|j: int|
        0 <= j < snapshot.len() && (#[trigger] snapshot[j]).info.is_active && snapshot[j].settings
            is Some implies store_get(drained, snapshot[j].info.device_name@)
        == snapshot[j].settings by {
        lemma_captured_value_distinct(snapshot, j);
        lemma_capture_store_get(snapshot, snapshot[j].info.device_name@);
    }
}

/// Law: a capture pass while displays are disabled changes nothing —
/// the pre-disable snapshot is protected.
pub proof fn lemma_capture_noop_when_disabled(v: ManagerView, snapshot: Seq<CapturedDisplay>)
    requires
        v.displays_disabled,
    ensures
        spec_capture(v, snapshot) == v,
{
}

/// Law: a restoration that finds no captured entries drains an empty
/// sequence and leaves displays counted as enabled.
pub proof fn lemma_restore_empty_store(v: ManagerView)
    requires
        v.store == Seq::<SavedSetting>::empty(),
    ensures
        spec_restore_begin(v).store == v.store,
        !spec_restore_begin(v).displays_disabled,
{
}

/// Law (idempotence): after a disable pass whose outcome had at least
/// one accepted stage, a second disable pass without an intervening
/// restoration stages nothing, whatever the new enumeration shows.
pub proof fn lemma_disable_idempotent(
    v: ManagerView,
    accepted_count: nat,
    monitors: Seq<MonitorInfo>,
)
    requires
        accepted_count > 0,
    ensures
        spec_disable_plan(spec_record_disable(v, accepted_count), monitors) == Seq::<
            StagedChange,
        >::empty(),
{
}

/// Law (drained exactly once): of two restorations in a row — as when
/// two callers race on restore and the orchestrator's lock serializes
/// them — the first drains the whole store, and the second finds an
/// empty store and drains nothing.
pub proof fn lemma_restore_drains_once(v: ManagerView)
    ensures
        spec_restore_begin(v).store == Seq::<SavedSetting>::empty(),
        !spec_restore_begin(v).displays_disabled,
{
}

/// Law (shutdown restores at most once): the shutdown step restores
/// exactly when displays are still disabled when the flag is
/// observed; once it has run, running it again restores nothing.
pub proof fn lemma_shutdown_restores_once(v: ManagerView)
    ensures
        spec_shutdown_drained(v) is Some <==> v.displays_disabled,
        v.displays_disabled ==> spec_shutdown_drained(v) == Some(v.store),
        spec_shutdown_drained(spec_shutdown_step(v)) is None,
{
}

} // verus!
