use vstd::prelude::*;

verus! {

/// One OS process as the watcher sees it: the executable's full path
/// when the OS could report one, and the bare process name, which is
/// all that is left to match by when path resolution is refused.
#[derive(Clone, Debug)]
pub struct ProcessEntry {
    pub exe_path: Option<String>,
    pub name: String,
}

/// What one watcher tick asks of the orchestrator.
#[derive(Clone, Copy, Debug, PartialEq, Eq, Structural)]
pub enum WatchAction {
    NoChange,
    DisableSecondary,
    RestoreAll,
}

/// The characters of a string lowercased; the result depends on the
/// characters alone.
pub uninterp spec fn lower_of(s: Seq<char>) -> Seq<char>;

/// Relies on str::to_lowercase: Unicode lowercasing, a function of
/// the input characters alone.
#[verifier::external_body]
fn to_lower(s: &str) -> (r: String)
    ensures
        r@ == lower_of(s@),
{
    s.to_lowercase()
}

/// The characters that split a path into components.
pub open spec fn is_path_separator(c: char) -> bool {
    c == '\\' || c == '/'
}

/// The file-name suffix of a path: everything after the last path
/// separator, or the whole path when it has none.
pub open spec fn spec_file_name(s: Seq<char>) -> Seq<char>
    decreases s.len(),
{
    if s.len() == 0 {
        Seq::empty()
    } else if is_path_separator(s.last()) {
        Seq::empty()
    } else {
        spec_file_name(s.drop_last()).push(s.last())
    }
}

/// Extracts the file name from a path.
pub fn file_name_of(path: &str) -> (r: String)
    ensures
        r@ == spec_file_name(path@),
{
    let n = path.unicode_len();
    let mut start: usize = 0;
    let mut i: usize = 0;
    while i < n
        invariant
            n == path@.len(),
            start <= i <= n,
            spec_file_name(path@.take(i as int)) == path@.subrange(start as int, i as int),
        decreases n - i,
    {
        let c = path.get_char(i);
        proof {
            assert(path@.take(i as int + 1).drop_last() =~= path@.take(i as int));
            assert(path@.take(i as int + 1).last() == path@[i as int]);
        }
        if c == '\\' || c == '/' {
            start = i + 1;
            proof {
                assert(path@.subrange(i as int + 1, i as int + 1)
                    =~= Seq::<char>::empty());
            }
        } else {
            proof {
                assert(path@.subrange(start as int, i as int).push(path@[i as int])
                    =~= path@.subrange(start as int, i as int + 1));
            }
        }
        i = i + 1;
    }
    proof {
        assert(path@.take(n as int) =~= path@);
    }
    let tail = path.substring_char(start, n);
    String::from_str(tail)
}

/// Whether one process is the configured target: its full path
/// compared case-insensitively against the target path when the OS
/// reported one, else its bare name against the target's file name.
pub open spec fn spec_matches_target(e: ProcessEntry, target: Seq<char>) -> bool {
    match e.exe_path {
        Some(p) => lower_of(p@) == lower_of(target),
        None => lower_of(e.name@) == lower_of(spec_file_name(target)),
    }
}

/// Decides whether `entry` is the watched executable.
pub fn matches_target(entry: &ProcessEntry, target: &String) -> (b: bool)
    ensures
        b == spec_matches_target(*entry, target@),
{
    match &entry.exe_path {
        Some(p) => {
            let lp = to_lower(p.as_str());
            let lt = to_lower(target.as_str());
            lp == lt
        },
        None => {
            let ln = to_lower(entry.name.as_str());
            let fname = file_name_of(target.as_str());
            let lf = to_lower(fname.as_str());
            ln == lf
        },
    }
}

/// Whether some process in the list is the target.
pub open spec fn spec_target_running(procs: Seq<ProcessEntry>, target: Seq<char>) -> bool {
    exists|i: int| 0 <= i < procs.len() && spec_matches_target(procs[i], target)
}

/// Scans one poll of the process list for the target executable.
pub fn is_target_running(procs: &Vec<ProcessEntry>, target: &String) -> (b: bool)
    ensures
        b == spec_target_running(procs@, target@),
{
    let mut i: usize = 0;
    while i < procs.len()
        invariant
            i <= procs@.len(),
            forall|j: int| 0 <= j < i ==> !spec_matches_target(procs@[j], target@),
        decreases procs@.len() - i,
    {
        if matches_target(&procs[i], target) {
            proof {
                assert(spec_matches_target(procs@[i as int], target@));
            }
            return true;
        }
        i = i + 1;
    }
    false
}

/// The action a presence transition demands: disable on the rising
/// edge, restore on the falling edge, nothing while presence is
/// steady.
pub open spec fn spec_next_action(was_running: bool, is_running: bool) -> WatchAction {
    if is_running && !was_running {
        WatchAction::DisableSecondary
    } else if !is_running && was_running {
        WatchAction::RestoreAll
    } else {
        WatchAction::NoChange
    }
}

/// Compares this tick's presence against the previous tick's.
/// Steady states produce no action, so each edge fires exactly once.
pub fn next_action(was_running: bool, is_running: bool) -> (a: WatchAction)
    ensures
        a == spec_next_action(was_running, is_running),
        was_running == is_running ==> a == WatchAction::NoChange,
{
    if is_running && !was_running {
        WatchAction::DisableSecondary
    } else if !is_running && was_running {
        WatchAction::RestoreAll
    } else {
        WatchAction::NoChange
    }
}

/// The status line each action leaves in the shared state; a steady
/// tick keeps the previous text.
pub fn action_status(a: WatchAction) -> (s: Option<String>)
    ensures
        a == WatchAction::DisableSecondary ==> s is Some && s->0@ == "Monitoring active - secondary monitors disabled"@,
        a == WatchAction::RestoreAll ==> s is Some && s->0@ == "Idle - waiting for process"@,
        a == WatchAction::NoChange ==> s is None,
{
    match a {
        WatchAction::DisableSecondary => Some(
            String::from_str("Monitoring active - secondary monitors disabled"),
        ),
        WatchAction::RestoreAll => Some(String::from_str("Idle - waiting for process")),
        WatchAction::NoChange => None,
    }
}

/// The monitoring flag each action leaves in the shared state.
pub fn monitoring_after(a: WatchAction, monitoring: bool) -> (m: bool)
    ensures
        a == WatchAction::DisableSecondary ==> m,
        a == WatchAction::RestoreAll ==> !m,
        a == WatchAction::NoChange ==> m == monitoring,
{
    match a {
        WatchAction::DisableSecondary => true,
        WatchAction::RestoreAll => false,
        WatchAction::NoChange => monitoring,
    }
}

} // verus!
