use vstd::prelude::*;

verus! {

use crate::display::DisplayConfiguration;

/// One snapshot entry: a display identity together with the
/// configuration to re-apply when that display is restored.
#[derive(Clone, Debug)]
pub struct SavedSetting {
    pub device_name: String,
    pub settings: DisplayConfiguration,
}

/// First position in `s` whose identity reads `name`, or -1 when no
/// entry carries it.
pub open spec fn first_index_of(s: Seq<SavedSetting>, name: Seq<char>) -> int
    decreases s.len(),
{
    if s.len() == 0 {
        -1
    } else if s[0].device_name@ == name {
        0
    } else {
        let r = first_index_of(s.drop_first(), name);
        if r == -1 {
            -1
        } else {
            1 + r
        }
    }
}

/// Whether some entry of `s` carries the identity `name`.
pub open spec fn store_has(s: Seq<SavedSetting>, name: Seq<char>) -> bool {
    first_index_of(s, name) != -1
}

/// The configuration held for `name`: that of the first matching
/// entry, or `None`.
pub open spec fn store_get(s: Seq<SavedSetting>, name: Seq<char>) -> Option<DisplayConfiguration> {
    if store_has(s, name) {
        Some(s[first_index_of(s, name)].settings)
    } else {
        None
    }
}

/// No two entries of `s` carry the same identity.
pub open spec fn distinct_keys(s: Seq<SavedSetting>) -> bool {
    forall|i: int, j: int|
        0 <= i < j < s.len() ==> s[i].device_name@ != s[j].device_name@
}

/// The store after an upsert: the first entry carrying `name`'s
/// identity is replaced, or a new entry is appended.
pub open spec fn spec_upsert(
    s: Seq<SavedSetting>,
    name: String,
    settings: DisplayConfiguration,
) -> Seq<SavedSetting> {
    let e = SavedSetting { device_name: name, settings };
    if store_has(s, name@) {
        s.update(first_index_of(s, name@), e)
    } else {
        s.push(e)
    }
}

/// `first_index_of` lands on a matching entry and passes over only
/// mismatching ones; when it yields -1, nothing matches.
pub proof fn lemma_first_index_of(s: Seq<SavedSetting>, name: Seq<char>)
    ensures
        store_has(s, name) ==> {
            let r = first_index_of(s, name);
            &&& 0 <= r < s.len()
            &&& s[r].device_name@ == name
            &&& forall|j: int| 0 <= j < r ==> s[j].device_name@ != name
        },
        !store_has(s, name) ==> forall|j: int|
            0 <= j < s.len() ==> s[j].device_name@ != name,
    decreases s.len(),
{
    if s.len() == 0 {
    } else if s[0].device_name@ == name {
    } else {
        lemma_first_index_of(s.drop_first(), name);
        assert(forall|j: int|
            1 <= j < s.len() ==> s[j] == s.drop_first()[j - 1]);
    }
}

/// An index preceded only by mismatches and sitting on a match is
/// exactly `first_index_of`.
pub proof fn lemma_first_index_of_is(s: Seq<SavedSetting>, name: Seq<char>, i: int)
    requires
        0 <= i < s.len(),
        s[i].device_name@ == name,
        forall|j: int| 0 <= j < i ==> s[j].device_name@ != name,
    ensures
        first_index_of(s, name) == i,
    decreases s.len(),
{
    if i == 0 {
    } else {
        let t = s.drop_first();
        assert(forall|j: int| 0 <= j < i - 1 ==> t[j] == s[j + 1]);
        lemma_first_index_of_is(t, name, i - 1);
    }
}

/// What an upsert does to every lookup: the named identity now maps
/// to the new configuration, every other identity is untouched. The
/// store grows by one entry exactly when the identity was absent.
pub proof fn lemma_upsert_get(
    s: Seq<SavedSetting>,
    name: String,
    settings: DisplayConfiguration,
    k: Seq<char>,
)
    ensures
        store_get(spec_upsert(s, name, settings), k) == if k == name@ {
            Some(settings)
        } else {
            store_get(s, k)
        },
        spec_upsert(s, name, settings).len() == s.len() + if store_has(s, name@) {
            0int
        } else {
            1int
        },
{
    let e = SavedSetting { device_name: name, settings };
    let s2 = spec_upsert(s, name, settings);
    lemma_first_index_of(s, name@);
    if store_has(s, name@) {
        let i = first_index_of(s, name@);
        assert(s2 == s.update(i, e));
        if k == name@ {
            assert(s2[i] == e);
            lemma_first_index_of_is(s2, k, i);
        } else if store_has(s, k) {
            lemma_first_index_of(s, k);
            let r = first_index_of(s, k);
            assert(r != i);
            assert(s2[r] == s[r]);
            assert(forall|j: int| 0 <= j < r && j != i ==> s2[j] == s[j]);
            lemma_first_index_of_is(s2, k, r);
        } else {
            lemma_first_index_of(s, k);
            if store_has(s2, k) {
                lemma_first_index_of(s2, k);
                let r2 = first_index_of(s2, k);
                assert(r2 != i);
                assert(s2[r2] == s[r2]);
                assert(false);
            }
        }
    } else {
        assert(s2 == s.push(e));
        if k == name@ {
            assert(s2[s.len() as int] == e);
            assert(forall|j: int| 0 <= j < s.len() ==> s2[j] == s[j]);
            lemma_first_index_of_is(s2, k, s.len() as int);
        } else if store_has(s, k) {
            lemma_first_index_of(s, k);
            let r = first_index_of(s, k);
            assert(s2[r] == s[r]);
            assert(forall|j: int| 0 <= j < r ==> s2[j] == s[j]);
            lemma_first_index_of_is(s2, k, r);
        } else {
            lemma_first_index_of(s, k);
            if store_has(s2, k) {
                lemma_first_index_of(s2, k);
                let r2 = first_index_of(s2, k);
                assert(r2 < s.len() ==> s2[r2] == s[r2]);
                assert(false);
            }
        }
    }
}

/// An upsert keeps the keys distinct.
proof fn lemma_upsert_distinct(s: Seq<SavedSetting>, name: String, settings: DisplayConfiguration)
    requires
        distinct_keys(s),
    ensures
        distinct_keys(spec_upsert(s, name, settings)),
{
    let e = SavedSetting { device_name: name, settings };
    let s2 = spec_upsert(s, name, settings);
    if store_has(s, name@) {
        lemma_first_index_of(s, name@);
        let i = first_index_of(s, name@);
        assert(forall|j: int| 0 <= j < s.len() && j != i ==> s2[j] == s[j]);
        assert(forall|j: int|
            0 <= j < s.len() && j != i ==> s2[j].device_name@ != name@) by {
            assert(forall|j: int, l: int|
                0 <= j < l < s.len() ==> s[j].device_name@ != s[l].device_name@);
        }
    } else {
        lemma_first_index_of(s, name@);
    }
}

/// Per-display snapshots, keyed by display identity. Repopulated by
/// capture passes and consumed wholesale by a restoration.
pub struct ConfigurationStore {
    entries: Vec<SavedSetting>,
}

impl View for ConfigurationStore {
    type V = Seq<SavedSetting>;

    closed spec fn view(&self) -> Seq<SavedSetting> {
        self.entries@
    }
}

impl ConfigurationStore {
    /// A store never holds two entries for one display.
    #[verifier::type_invariant]
    closed spec fn wf(&self) -> bool {
        distinct_keys(self.entries@)
    }

    pub fn new() -> (s: ConfigurationStore)
        ensures
            s@ == Seq::<SavedSetting>::empty(),
    {
        ConfigurationStore { entries: Vec::new() }
    }

    pub fn len(&self) -> (n: usize)
        ensures
            n == self@.len(),
    {
        self.entries.len()
    }

    pub fn is_empty(&self) -> (b: bool)
        ensures
            b == (self@.len() == 0),
    {
        self.entries.len() == 0
    }

    /// Position of the entry carrying `name`, if any.
    fn find_index(&self, name: &String) -> (r: Option<usize>)
        ensures
            match r {
                Some(i) => first_index_of(self@, name@) == i as int,
                None => !store_has(self@, name@),
            },
    {
        let mut i: usize = 0;
        while i < self.entries.len()
            invariant
                i <= self.entries@.len(),
                forall|j: int| 0 <= j < i ==> self.entries@[j].device_name@ != name@,
            decreases self.entries@.len() - i,
        {
            if self.entries[i].device_name == *name {
                proof {
                    lemma_first_index_of_is(self@, name@, i as int);
                }
                return Some(i);
            }
            i = i + 1;
        }
        proof {
            if store_has(self@, name@) {
                lemma_first_index_of(self@, name@);
            }
        }
        None
    }

    /// Stores `settings` for `name`, replacing any earlier snapshot
    /// of the same display.
    pub fn upsert(&mut self, name: String, settings: DisplayConfiguration)
        ensures
            final(self)@ == spec_upsert(old(self)@, name, settings),
    {
        proof {
            use_type_invariant(&*self);
            lemma_upsert_distinct(self@, name, settings);
        }
        let found = self.find_index(&name);
        let mut v: Vec<SavedSetting> = Vec::new();
        core::mem::swap(&mut v, &mut self.entries);
        match found {
            Some(i) => {
                proof {
                    lemma_first_index_of(old(self)@, name@);
                }
                v.set(i, SavedSetting { device_name: name, settings });
            },
            None => {
                v.push(SavedSetting { device_name: name, settings });
            },
        }
        self.entries = v;
    }

    /// Looks up the snapshot captured for `name`.
    pub fn get(&self, name: &String) -> (r: Option<&DisplayConfiguration>)
        ensures
            match r {
                Some(c) => store_get(self@, name@) == Some(*c),
                None => store_get(self@, name@) is None,
            },
    {
        let found = self.find_index(name);
        match found {
            Some(i) => {
                proof {
                    lemma_first_index_of(self@, name@);
                }
                Some(&self.entries[i].settings)
            },
            None => None,
        }
    }

    /// Hands out every entry and empties the store: a restoration is
    /// a one-shot operation.
    pub fn drain(&mut self) -> (all: Vec<SavedSetting>)
        ensures
            all@ == old(self)@,
            final(self)@ == Seq::<SavedSetting>::empty(),
            distinct_keys(all@),
    {
        proof {
            use_type_invariant(&*self);
        }
        let mut v: Vec<SavedSetting> = Vec::new();
        core::mem::swap(&mut v, &mut self.entries);
        v
    }
}

} // verus!
