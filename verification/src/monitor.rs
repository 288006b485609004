use vstd::prelude::*;

verus! {

use crate::display::{MonitorInfo, DisplayConfiguration, CapturedDisplay, spec_disable_config,
    disable_config};
use crate::store::{ConfigurationStore, SavedSetting, spec_upsert, store_get, distinct_keys};

/// A change queued for one display in the OS display transaction: the
/// display's identity and the configuration it is asked to take. A
/// disable request carries the zero-resolution configuration; a
/// restore request carries a previously captured one verbatim.
#[derive(Clone, Debug)]
pub struct StagedChange {
    pub device_name: String,
    pub target: DisplayConfiguration,
}

/// The orchestrator's abstract state: whether secondary displays are
/// currently held disabled, and the captured per-display snapshots.
pub ghost struct ManagerView {
    pub displays_disabled: bool,
    pub store: Seq<SavedSetting>,
}

/// The store one capture pass builds, from the snapshot alone: every
/// display that was active and whose configuration query succeeded,
/// and nothing else. Failed queries and inactive displays get no
/// entry, and no entry of an earlier capture survives — the store is
/// repopulated wholesale, never incrementally merged.
pub open spec fn spec_capture_store(snapshot: Seq<CapturedDisplay>) -> Seq<SavedSetting>
    decreases snapshot.len(),
{
    if snapshot.len() == 0 {
        Seq::empty()
    } else {
        let prefix = spec_capture_store(snapshot.drop_last());
        let e = snapshot.last();
        if e.info.is_active && e.settings is Some {
            spec_upsert(prefix, e.info.device_name, e.settings->0)
        } else {
            prefix
        }
    }
}

/// A capture pass: the store is replaced wholesale by what the
/// snapshot shows. Refused outright while displays are disabled, so
/// that the pre-disable snapshot is never overwritten.
pub open spec fn spec_capture(v: ManagerView, snapshot: Seq<CapturedDisplay>) -> ManagerView {
    if v.displays_disabled {
        v
    } else {
        ManagerView { displays_disabled: v.displays_disabled, store: spec_capture_store(snapshot) }
    }
}

/// The disable requests for one enumeration: one per display that is
/// active and not primary, in enumeration order.
pub open spec fn spec_disable_plan_from(monitors: Seq<MonitorInfo>) -> Seq<StagedChange>
    decreases monitors.len(),
{
    if monitors.len() == 0 {
        Seq::empty()
    } else {
        let rest = spec_disable_plan_from(monitors.drop_last());
        let m = monitors.last();
        if !m.is_primary && m.is_active {
            rest.push(StagedChange { device_name: m.device_name, target: spec_disable_config() })
        } else {
            rest
        }
    }
}

/// The disable requests the orchestrator stages: none at all while
/// displays are already disabled.
pub open spec fn spec_disable_plan(v: ManagerView, monitors: Seq<MonitorInfo>) -> Seq<StagedChange> {
    if v.displays_disabled {
        Seq::empty()
    } else {
        spec_disable_plan_from(monitors)
    }
}

/// The state after the OS has answered a disable pass: the disabled
/// flag is raised exactly when at least one stage was accepted; the
/// snapshot store is untouched.
pub open spec fn spec_record_disable(v: ManagerView, accepted_count: nat) -> ManagerView {
    ManagerView { displays_disabled: v.displays_disabled || accepted_count > 0, store: v.store }
}

/// The state after a restoration drain: the store is emptied and the
/// disabled flag is cleared unconditionally, whatever the OS later
/// says of the staged restores — leaving it raised would block every
/// future capture.
pub open spec fn spec_restore_begin(v: ManagerView) -> ManagerView {
    ManagerView { displays_disabled: false, store: Seq::empty() }
}

/// The identities among `entries` whose restore the OS accepted.
pub open spec fn spec_restored_names(entries: Seq<SavedSetting>, accepted: Seq<bool>) -> Seq<String>
    decreases entries.len(),
{
    if entries.len() == 0 {
        Seq::empty()
    } else {
        let rest = spec_restored_names(entries.drop_last(), accepted.drop_last());
        if accepted.len() >= 1 && accepted.last() {
            rest.push(entries.last().device_name)
        } else {
            rest
        }
    }
}

/// How many stages the OS accepted.
pub open spec fn spec_count_true(s: Seq<bool>) -> nat
    decreases s.len(),
{
    if s.len() == 0 {
        0
    } else {
        spec_count_true(s.drop_last()) + if s.last() {
            1nat
        } else {
            0nat
        }
    }
}

/// The shutdown step's state: a restore drain if displays were still
/// disabled when the shutdown flag was observed, else no change.
pub open spec fn spec_shutdown_step(v: ManagerView) -> ManagerView {
    if v.displays_disabled {
        spec_restore_begin(v)
    } else {
        v
    }
}

/// What the shutdown step drains: the whole store when displays were
/// disabled, nothing otherwise.
pub open spec fn spec_shutdown_drained(v: ManagerView) -> Option<Seq<SavedSetting>> {
    if v.displays_disabled {
        Some(v.store)
    } else {
        None
    }
}

/// The orchestrator. It owns the disabled flag and the configuration
/// store, and is the single serialization point for disable and
/// restore: the surrounding program shares it behind one lock and
/// performs the staged OS calls between the calls into it.
pub struct MonitorManager {
    displays_disabled: bool,
    saved_settings: ConfigurationStore,
}

impl View for MonitorManager {
    type V = ManagerView;

    closed spec fn view(&self) -> ManagerView {
        ManagerView { displays_disabled: self.displays_disabled, store: self.saved_settings@ }
    }
}

impl MonitorManager {
    pub fn new() -> (m: MonitorManager)
        ensures
            !m@.displays_disabled,
            m@.store == Seq::<SavedSetting>::empty(),
    {
        MonitorManager { displays_disabled: false, saved_settings: ConfigurationStore::new() }
    }

    /// Whether secondary displays are currently held disabled.
    pub fn displays_disabled(&self) -> (b: bool)
        ensures
            b == self@.displays_disabled,
    {
        self.displays_disabled
    }

    /// How many displays have a captured snapshot.
    pub fn saved_count(&self) -> (n: usize)
        ensures
            n == self@.store.len(),
    {
        self.saved_settings.len()
    }

    /// The captured configuration for one display, if any.
    pub fn get_saved(&self, name: &String) -> (r: Option<&DisplayConfiguration>)
        ensures
            match r {
                Some(c) => store_get(self@.store, name@) == Some(*c),
                None => store_get(self@.store, name@) is None,
            },
    {
        self.saved_settings.get(name)
    }

    /// Repopulates the store wholesale from `snapshot`: afterwards it
    /// holds every display that was active and whose configuration
    /// query succeeded, and nothing else — a display whose query
    /// failed is simply not restorable. A no-op while displays are
    /// disabled: capturing then would replace the known-good
    /// pre-disable snapshot with an already-disabled one.
    pub fn save_current_settings(&mut self, snapshot: &Vec<CapturedDisplay>)
        ensures
            final(self)@ == spec_capture(old(self)@, snapshot@),
    {
        if self.displays_disabled {
            return ;
        }
        self.saved_settings = ConfigurationStore::new();
        let ghost snap = snapshot@;
        proof {
            assert(snap.take(0) =~= Seq::<CapturedDisplay>::empty());
        }
        let mut i: usize = 0;
        while i < snapshot.len()
            invariant
                i <= snap.len(),
                snapshot@ == snap,
                !self@.displays_disabled,
                self@.store == spec_capture_store(snap.take(i as int)),
            decreases snap.len() - i,
        {
            let entry = &snapshot[i];
            if entry.info.is_active {
                match &entry.settings {
                    Some(cfg) => {
                        self.saved_settings.upsert(entry.info.device_name.clone(), *cfg);
                    },
                    None => {},
                }
            }
            proof {
                assert(snap.take(i as int + 1).drop_last() =~= snap.take(i as int));
                assert(snap.take(i as int + 1).last() == snap[i as int]);
            }
            i = i + 1;
        }
        proof {
            assert(snap.take(snap.len() as int) =~= snap);
        }
    }

    /// Plans one disable pass: a disable request for every display
    /// that is active and not primary — the primary display is never
    /// touched. Stages nothing while displays are already disabled.
    pub fn plan_disable_secondary(&self, monitors: &Vec<MonitorInfo>) -> (plan: Vec<StagedChange>)
        ensures
            plan@ == spec_disable_plan(self@, monitors@),
    {
        let mut plan: Vec<StagedChange> = Vec::new();
        if self.displays_disabled {
            return plan;
        }
        let ghost ms = monitors@;
        let mut i: usize = 0;
        while i < monitors.len()
            invariant
                i <= ms.len(),
                monitors@ == ms,
                plan@ == spec_disable_plan_from(ms.take(i as int)),
            decreases ms.len() - i,
        {
            let m = &monitors[i];
            if !m.is_primary && m.is_active {
                plan.push(StagedChange { device_name: m.device_name.clone(), target: disable_config() });
            }
            proof {
                assert(ms.take(i as int + 1).drop_last() =~= ms.take(i as int));
                assert(ms.take(i as int + 1).last() == ms[i as int]);
            }
            i = i + 1;
        }
        proof {
            assert(ms.take(ms.len() as int) =~= ms);
        }
        plan
    }

    /// Records the OS's answer to a disable pass: with at least one
    /// accepted stage the displays now count as disabled.
    pub fn record_disable_outcome(&mut self, accepted_count: usize)
        ensures
            final(self)@ == spec_record_disable(old(self)@, accepted_count as nat),
    {
        if accepted_count > 0 {
            self.displays_disabled = true;
        }
    }

    /// Begins a restoration: drains every captured snapshot for
    /// staging and clears the disabled flag. An empty store drains to
    /// an empty sequence — nothing to restore counts as idle, not as
    /// an error.
    pub fn restore_all_begin(&mut self) -> (entries: Vec<SavedSetting>)
        ensures
            entries@ == old(self)@.store,
            final(self)@ == spec_restore_begin(old(self)@),
            distinct_keys(entries@),
    {
        self.displays_disabled = false;
        self.saved_settings.drain()
    }

    /// The shutdown step: restores (drains) exactly when displays are
    /// still disabled, so an orderly exit never leaves the desktop
    /// disabled and never restores twice.
    pub fn shutdown_restore(&mut self) -> (drained: Option<Vec<SavedSetting>>)
        ensures
            final(self)@ == spec_shutdown_step(old(self)@),
            match drained {
                Some(v) => spec_shutdown_drained(old(self)@) == Some(v@),
                None => spec_shutdown_drained(old(self)@) is None,
            },
    {
        if self.displays_disabled() {
            Some(self.restore_all_begin())
        } else {
            None
        }
    }
}

/// Counts the stages the OS accepted.
pub fn count_accepted(accepted: &Vec<bool>) -> (n: usize)
    ensures
        n as nat == spec_count_true(accepted@),
{
    let ghost acc = accepted@;
    let mut n: usize = 0;
    let mut i: usize = 0;
    while i < accepted.len()
        invariant
            i <= acc.len(),
            accepted@ == acc,
            n as nat == spec_count_true(acc.take(i as int)),
            n <= i,
        decreases acc.len() - i,
    {
        if accepted[i] {
            n = n + 1;
        }
        proof {
            assert(acc.take(i as int + 1).drop_last() =~= acc.take(i as int));
            assert(acc.take(i as int + 1).last() == acc[i as int]);
        }
        i = i + 1;
    }
    proof {
        assert(acc.take(acc.len() as int) =~= acc);
    }
    n
}

/// The identities whose restore the OS accepted, in store order: what
/// a completed restoration reports.
pub fn collect_restored(entries: &Vec<SavedSetting>, accepted: &Vec<bool>) -> (names: Vec<String>)
    requires
        entries@.len() == accepted@.len(),
    ensures
        names@ == spec_restored_names(entries@, accepted@),
{
    let ghost es = entries@;
    let ghost acc = accepted@;
    let mut names: Vec<String> = Vec::new();
    let mut i: usize = 0;
    while i < entries.len()
        invariant
            i <= es.len(),
            es.len() == acc.len(),
            entries@ == es,
            accepted@ == acc,
            names@ == spec_restored_names(es.take(i as int), acc.take(i as int)),
        decreases es.len() - i,
    {
        if accepted[i] {
            names.push(entries[i].device_name.clone());
        }
        proof {
            assert(es.take(i as int + 1).drop_last() =~= es.take(i as int));
            assert(acc.take(i as int + 1).drop_last() =~= acc.take(i as int));
            assert(es.take(i as int + 1).last() == es[i as int]);
            assert(acc.take(i as int + 1).last() == acc[i as int]);
        }
        i = i + 1;
    }
    proof {
        assert(es.take(es.len() as int) =~= es);
        assert(acc.take(acc.len() as int) =~= acc);
    }
    names
}

} // verus!
