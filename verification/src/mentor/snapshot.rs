//! One live interview as the candidate sees it.

use vstd::prelude::*;
use vstd::std_specs::cmp::PartialEqSpec;

use crate::agent::{Problem, RuntimeState};
use crate::json::{json_view, law_equals_itself, Json, JsonView};

verus! {

/// One live interview as the candidate sees it.
#[derive(Debug)]
pub struct Snapshot {
    pub title: &'static str,
    pub brief: String,
    pub language: String,
    pub code: String,
    pub last_test_run: Option<Json>,
    pub test_runs: u32,
    pub updated_at: u64,
}

/// What a snapshot says.
pub ghost struct SnapshotView {
    pub title: Seq<char>,
    pub brief: Seq<char>,
    pub language: Seq<char>,
    pub code: Seq<char>,
    pub last_test_run: Option<JsonView>,
    pub test_runs: u32,
    pub updated_at: u64,
}

impl SnapshotView {
    /// Whether the two say the same.
    pub open spec fn equals(self, other: SnapshotView) -> bool {
        &&& self.title == other.title
        &&& self.brief == other.brief
        &&& self.language == other.language
        &&& self.code == other.code
        &&& match (self.last_test_run, other.last_test_run) {
            (Some(a), Some(b)) => a.equals(b),
            (None, None) => true,
            _ => false,
        }
        &&& self.test_runs == other.test_runs
        &&& self.updated_at == other.updated_at
    }
}

fn copy_run(run: &Option<Json>) -> (res: Option<Json>)
    ensures
        json_view(res) == json_view(*run),
{
    match run {
        Some(run) => Some(run.clone()),
        None => None,
    }
}

impl View for Snapshot {
    type V = SnapshotView;

    open spec fn view(&self) -> SnapshotView {
        SnapshotView {
            title: self.title@,
            brief: self.brief@,
            language: self.language@,
            code: self.code@,
            last_test_run: json_view(self.last_test_run),
            test_runs: self.test_runs,
            updated_at: self.updated_at,
        }
    }
}

/// What the candidate sees of an interview on `problem` that has come to `state`.
pub open spec fn seen(problem: Problem, state: RuntimeState, now_seconds: u64) -> SnapshotView {
    SnapshotView {
        title: problem.posed.title@,
        brief: problem.posed.brief@,
        language: state.language@,
        code: state.code@,
        last_test_run: json_view(state.last_test_run),
        test_runs: state.test_runs,
        updated_at: now_seconds,
    }
}

/// Law: a snapshot says what each of its fields holds.
pub proof fn law_a_snapshot_says_its_fields(snapshot: Snapshot)
    ensures
        snapshot@.title == snapshot.title@,
        snapshot@.brief == snapshot.brief@,
        snapshot@.language == snapshot.language@,
        snapshot@.code == snapshot.code@,
        snapshot@.last_test_run == (match snapshot.last_test_run {
            Some(run) => Some(run@),
            None => None,
        }),
        snapshot@.test_runs == snapshot.test_runs,
        snapshot@.updated_at == snapshot.updated_at,
{
}

/// Law: what the candidate sees is the problem as posed and the whole state of the interview,
/// at the time it is taken: the language, the code, the last test run and the number of runs,
/// each of them whatever the others are.
pub proof fn law_the_whole_state_is_seen(problem: Problem, state: RuntimeState, now_seconds: u64)
    ensures
        ({
            let said = seen(problem, state, now_seconds);
            &&& said.title == problem.posed.title@
            &&& said.brief == problem.posed.brief@
            &&& said.language == state.language@
            &&& said.code == state.code@
            &&& state.last_test_run matches Some(run) ==> said.last_test_run == Some(run@)
            &&& state.last_test_run is None ==> said.last_test_run is None
            &&& said.test_runs == state.test_runs
            &&& said.updated_at == now_seconds
        }),
{
}

/// Law: snapshots are equal only if they agree on every field, and are if they do; test runs
/// agree if they are equal values or both missing.
pub proof fn law_equal_snapshots_agree(a: SnapshotView, b: SnapshotView)
    ensures
        a == b ==> a.equals(b),
        a.equals(b) ==> {
            &&& b.title == a.title && b.brief == a.brief && b.language == a.language
            &&& b.code == a.code && b.test_runs == a.test_runs && b.updated_at == a.updated_at
            &&& a.last_test_run is Some <==> b.last_test_run is Some
            &&& a.last_test_run is Some ==> a.last_test_run->0.equals(b.last_test_run->0)
        },
        b.last_test_run is Some && a == (SnapshotView { last_test_run: a.last_test_run, ..b })
            && a.last_test_run is Some && a.last_test_run->0.equals(b.last_test_run->0)
            ==> a.equals(b),
{
    if let Some(run) = a.last_test_run {
        law_equals_itself(run);
    }
}

impl Snapshot {
    /// What the candidate sees of an interview on `problem` that has come to `state`.
    pub fn of(problem: &Problem, state: &RuntimeState, now_seconds: u64) -> (res: Snapshot)
        ensures
            res@ == seen(*problem, *state, now_seconds),
            res.title@ == problem.posed.title@,
            res.brief@ == problem.posed.brief@,
            res.language@ == state.language@,
            res.code@ == state.code@,
            res.last_test_run is Some <==> state.last_test_run is Some,
            state.last_test_run is Some ==> res.last_test_run->0@ == state.last_test_run->0@,
            res.test_runs == state.test_runs,
            res.updated_at == now_seconds,
    {
        let variant = problem.variant();
        Snapshot {
            title: variant.title,
            brief: variant.brief_text(),
            language: state.language.clone(),
            code: state.code.clone(),
            last_test_run: copy_run(&state.last_test_run),
            test_runs: state.test_runs,
            updated_at: now_seconds,
        }
    }
}

impl Clone for Snapshot {
    fn clone(&self) -> (res: Snapshot)
        ensures
            res@ == self@,
    {
        Snapshot {
            title: self.title,
            brief: self.brief.clone(),
            language: self.language.clone(),
            code: self.code.clone(),
            last_test_run: copy_run(&self.last_test_run),
            test_runs: self.test_runs,
            updated_at: self.updated_at,
        }
    }
}

impl PartialEq for Snapshot {
    fn eq(&self, other: &Snapshot) -> (res: bool) {
        let same_run = match (&self.last_test_run, &other.last_test_run) {
            (Some(a), Some(b)) => *a == *b,
            (None, None) => true,
            _ => false,
        };
        crate::text::same_text(self.title, other.title) && self.brief == other.brief
            && self.language == other.language && self.code == other.code && same_run
            && self.test_runs == other.test_runs && self.updated_at == other.updated_at
    }
}

impl vstd::std_specs::cmp::PartialEqSpecImpl for Snapshot {
    open spec fn obeys_eq_spec() -> bool {
        true
    }

    open spec fn eq_spec(&self, other: &Snapshot) -> bool {
        self@.equals(other@)
    }
}

/// Law: `==` tells whether two snapshots say the same.
pub proof fn law_equality_of_snapshots_is_told(a: Snapshot, b: Snapshot)
    ensures
        Snapshot::obeys_eq_spec(),
        a.eq_spec(&b) <==> a@.equals(b@),
{
}

} // verus!
