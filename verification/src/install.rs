//! The decisions of a model installation, one source at a time: a file
//! already in place is kept, a downloaded one is recorded as created, and the
//! first failure removes exactly the files this installation created.

use vstd::prelude::*;
use crate::text::owned;

verus! {

/// Where an installation stands: the file names installed so far, in order,
/// and the files it created by downloading them.
pub struct InstallState {
    pub installed: Vec<String>,
    pub created: Vec<String>,
}

/// What happened to one source.
pub enum InstallEvent {
    /// Its file was already in place; nothing was downloaded.
    Present,
    /// Its file was downloaded to its destination.
    Downloaded,
    /// It could not be installed, for this reason.
    Failed(String),
}

/// What the installation does next.
pub enum InstallAction {
    /// Go on with the next source (or finish, after the last one).
    Next,
    /// Remove these files, then fail with this error.
    Fail { remove: Vec<String>, error: String },
}

/// The state as texts: installed names and created files.
pub open spec fn state_view(s: InstallState) -> (Seq<Seq<char>>, Seq<Seq<char>>) {
    (s.installed.deep_view(), s.created.deep_view())
}

/// One source that went through: its file name, its destination, and
/// whether it was downloaded (rather than found in place).
pub type InstallOutcome = (Seq<char>, Seq<char>, bool);

/// The state after one source that went through.
pub open spec fn step_state(s: (Seq<Seq<char>>, Seq<Seq<char>>), o: InstallOutcome) -> (Seq<Seq<char>>, Seq<Seq<char>>) {
    (s.0.push(o.0), if o.2 {
        s.1.push(o.1)
    } else {
        s.1
    })
}

/// The state after a run of sources that all went through, from the start.
pub open spec fn run_state(run: Seq<InstallOutcome>) -> (Seq<Seq<char>>, Seq<Seq<char>>)
    decreases run.len(),
{
    if run.len() == 0 {
        (Seq::empty(), Seq::empty())
    } else {
        step_state(run_state(run.drop_last()), run.last())
    }
}

impl InstallState {
    /// Nothing installed and nothing created yet.
    pub fn new() -> (s: InstallState)
        ensures
            state_view(s) == run_state(Seq::empty()),
    {
        let s = InstallState { installed: Vec::new(), created: Vec::new() };
        proof {
            assert(s.installed.deep_view() =~= Seq::<Seq<char>>::empty());
            assert(s.created.deep_view() =~= Seq::<Seq<char>>::empty());
        }
        s
    }
}

/// One step of an installation. A source whose file was in place or was
/// downloaded adds its file name to what is installed; a download also
/// records its destination as created. A failure stops the installation:
/// every file it created is to be removed, and its error is returned.
pub fn install_step(state: InstallState, file_name: &str, destination: &str, event: InstallEvent) -> (r: (
    InstallState,
    InstallAction,
))
    ensures
        match event {
            InstallEvent::Present => state_view(r.0) == step_state(state_view(state), (file_name@, destination@, false))
                && r.1 is Next,
            InstallEvent::Downloaded => state_view(r.0) == step_state(state_view(state), (file_name@, destination@, true))
                && r.1 is Next,
            InstallEvent::Failed(e) => (match r.1 {
                InstallAction::Fail { remove, error } => remove.deep_view() == state.created.deep_view() && error@
                    == e@,
                InstallAction::Next => false,
            }) && r.0.installed.deep_view() == state.installed.deep_view() && r.0.created.deep_view().len() == 0,
        },
{
    let InstallState { mut installed, mut created } = state;
    match event {
        InstallEvent::Present => {
            let ghost before = installed.deep_view();
            installed.push(owned(file_name));
            proof {
                assert(installed.deep_view() =~= before.push(file_name@));
            }
            (InstallState { installed, created }, InstallAction::Next)
        },
        InstallEvent::Downloaded => {
            let ghost before = installed.deep_view();
            let ghost made = created.deep_view();
            installed.push(owned(file_name));
            created.push(owned(destination));
            proof {
                assert(installed.deep_view() =~= before.push(file_name@));
                assert(created.deep_view() =~= made.push(destination@));
            }
            (InstallState { installed, created }, InstallAction::Next)
        },
        InstallEvent::Failed(error) => {
            let empty: Vec<String> = Vec::new();
            proof {
                assert(empty.deep_view().len() == 0);
            }
            (InstallState { installed, created: empty }, InstallAction::Fail { remove: created, error })
        },
    }
}

/// A failed installation removes only what it created: a destination that
/// every step found already in place is never among the created files, and
/// every created file was downloaded by a step of this run.
pub proof fn files_in_place_are_never_removed(run: Seq<InstallOutcome>, d: Seq<char>)
    ensures
        (forall|i: int| 0 <= i < run.len() && (#[trigger] run[i]).1 == d ==> !run[i].2) ==> !run_state(
            run,
        ).1.contains(d),
        run_state(run).1.contains(d) ==> exists|i: int| 0 <= i < run.len() && (#[trigger] run[i]).1 == d && run[i].2,
    decreases run.len(),
{
    if run.len() > 0 {
        let p = run.drop_last();
        files_in_place_are_never_removed(p, d);
        let prev = run_state(p).1;
        let o = run.last();
        if forall|i: int| 0 <= i < run.len() && (#[trigger] run[i]).1 == d ==> !run[i].2 {
            assert forall|i: int| 0 <= i < p.len() && (#[trigger] p[i]).1 == d implies !p[i].2 by {
                assert(p[i] == run[i]);
            }
            assert(run[run.len() - 1] == o);
            if o.2 {
                assert(o.1 != d);
                if prev.push(o.1).contains(d) {
                    let j = choose|j: int| 0 <= j < prev.push(o.1).len() && prev.push(o.1)[j] == d;
                    assert(prev[j] == d);
                }
            }
        }
        if run_state(run).1.contains(d) {
            if prev.contains(d) {
                let i = choose|i: int| 0 <= i < p.len() && (#[trigger] p[i]).1 == d && p[i].2;
                assert(run[i] == p[i]);
            } else {
                assert(o.2);
                let j = choose|j: int| 0 <= j < prev.push(o.1).len() && prev.push(o.1)[j] == d;
                assert(j == prev.len());
                assert(run[run.len() - 1].1 == d);
            }
        }
    }
}

/// The files on disk after a run of sources that went through, starting
/// from `initial`: each download adds its destination.
pub open spec fn disk_after(initial: Set<Seq<char>>, run: Seq<InstallOutcome>) -> Set<Seq<char>>
    decreases run.len(),
{
    if run.len() == 0 {
        initial
    } else {
        let d = disk_after(initial, run.drop_last());
        if run.last().2 {
            d.insert(run.last().1)
        } else {
            d
        }
    }
}

/// Each source of the run was downloaded exactly when its destination was
/// not on disk yet.
pub open spec fn downloads_only_missing(initial: Set<Seq<char>>, run: Seq<InstallOutcome>) -> bool {
    forall|i: int| 0 <= i < run.len() ==> (#[trigger] run[i]).2 == !disk_after(initial, run.take(i)).contains(run[i].1)
}

proof fn lemma_disk_after(initial: Set<Seq<char>>, run: Seq<InstallOutcome>)
    requires
        downloads_only_missing(initial, run),
    ensures
        disk_after(initial, run) == initial.union(run_state(run).1.to_set()),
        forall|x: Seq<char>| run_state(run).1.contains(x) ==> !initial.contains(x),
    decreases run.len(),
{
    if run.len() > 0 {
        let p = run.drop_last();
        assert forall|i: int| 0 <= i < p.len() implies (#[trigger] p[i]).2 == !disk_after(initial, p.take(i)).contains(p[i].1) by {
            assert(p[i] == run[i]);
            assert(p.take(i) =~= run.take(i));
        }
        lemma_disk_after(initial, p);
        let o = run.last();
        let k = run.len() - 1;
        assert(run[k] == o);
        assert(run.take(k) =~= p);
        let prev = run_state(p).1;
        if o.2 {
            assert(!disk_after(initial, p).contains(o.1));
            assert(!initial.contains(o.1));
            assert(prev.push(o.1).to_set() =~= prev.to_set().insert(o.1)) by {
                assert forall|x: Seq<char>| prev.push(o.1).to_set().contains(x) <==> prev.to_set().insert(o.1).contains(x) by {
                    if prev.push(o.1).contains(x) {
                        let j = choose|j: int| 0 <= j < prev.push(o.1).len() && prev.push(o.1)[j] == x;
                        if j < prev.len() {
                            assert(prev[j] == x);
                        }
                    }
                    if prev.contains(x) {
                        let j = choose|j: int| 0 <= j < prev.len() && prev[j] == x;
                        assert(prev.push(o.1)[j] == x);
                    }
                    if x == o.1 {
                        assert(prev.push(o.1)[prev.len() as int] == x);
                    }
                }
            }
            assert(disk_after(initial, run) =~= initial.union(run_state(run).1.to_set()));
            assert forall|x: Seq<char>| run_state(run).1.contains(x) implies !initial.contains(x) by {
                let j = choose|j: int| 0 <= j < prev.push(o.1).len() && prev.push(o.1)[j] == x;
                if j < prev.len() {
                    assert(prev[j] == x);
                }
            }
        }
    }
}

/// A failed installation leaves the disk as it found it: when every source
/// was downloaded only because its file was missing, removing the created
/// files gives back exactly the files that were there before.
pub proof fn a_failed_install_restores_the_disk(initial: Set<Seq<char>>, run: Seq<InstallOutcome>)
    requires
        downloads_only_missing(initial, run),
    ensures
        disk_after(initial, run).difference(run_state(run).1.to_set()) == initial,
{
    lemma_disk_after(initial, run);
    assert(disk_after(initial, run).difference(run_state(run).1.to_set()) =~= initial);
}

} // verus!
