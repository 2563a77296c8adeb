//! Plans: the privileged operations that the runtime asks for, in the order in
//! which they are to be performed, and what a failure of each means for the
//! rest.
//!
//! The library decides; its caller performs. A [`Plan`] is walked with
//! [`Plan::next`]: after each step the caller reports whether it succeeded and
//! is told which step comes next.

use vstd::prelude::*;

verus! {

/// Ignore set-user-ID and set-group-ID bits.
pub const MS_NOSUID: u64 = 2;

/// Disallow access to device special files.
pub const MS_NODEV: u64 = 4;

/// Disallow program execution.
pub const MS_NOEXEC: u64 = 8;

/// Bind a directory at a second place.
pub const MS_BIND: u64 = 4096;

/// Apply to the whole subtree.
pub const MS_REC: u64 = 16384;

/// Always update the access time.
pub const MS_STRICTATIME: u64 = 16777216;

/// One operation on the host.
#[derive(Clone, Debug, PartialEq, Eq)]
pub enum Step {
    /// Create the directory and every missing parent, and give it `mode`.
    CreateDir { path: String, mode: u32 },
    /// Create the directory; its parent exists and it does not.
    MakeDir { path: String },
    /// Remove the empty directory.
    RemoveDir { path: String },
    /// Remove the directory and all below it.
    RemoveTree { path: String },
    /// Give the file `mode`, then replace what it holds by `data`.
    WriteFile { path: String, mode: u32, data: String },
    /// Give the file `mode`, then add `data` behind what it holds, which stays.
    AppendFile { path: String, mode: u32, data: String },
    /// Unpack the archive below the directory `into`.
    Extract { archive: String, into: String },
    /// Give the directory `from` the name `to`, which is free, all at once.
    Rename { from: String, to: String },
    /// Mount the union of `upper` (writable, searched first) and `lower`
    /// (read-only) on `target`.
    MountUnion { upper: String, lower: String, target: String },
    /// Bind the host directory `source` at `target`.
    MountVolume { source: String, target: String },
    /// Unmount what is mounted on `target`.
    Unmount { target: String },
    /// The `mount` system call, with the file system's own options if any.
    Mount { source: String, target: String, fstype: String, flags: u64, options: Option<String> },
    /// Make `new_root` the root of the mount namespace and move the old root
    /// to `put_old`.
    PivotRoot { new_root: String, put_old: String },
    /// Change the working directory.
    ChangeDir { path: String },
    /// Detach what is mounted on `target`, busy or not.
    Detach { target: String },
}

/// A [`Step`] with its texts as character sequences.
pub enum StepView {
    CreateDir { path: Seq<char>, mode: u32 },
    MakeDir { path: Seq<char> },
    RemoveDir { path: Seq<char> },
    RemoveTree { path: Seq<char> },
    WriteFile { path: Seq<char>, mode: u32, data: Seq<char> },
    AppendFile { path: Seq<char>, mode: u32, data: Seq<char> },
    Extract { archive: Seq<char>, into: Seq<char> },
    Rename { from: Seq<char>, to: Seq<char> },
    MountUnion { upper: Seq<char>, lower: Seq<char>, target: Seq<char> },
    MountVolume { source: Seq<char>, target: Seq<char> },
    Unmount { target: Seq<char> },
    Mount {
        source: Seq<char>,
        target: Seq<char>,
        fstype: Seq<char>,
        flags: u64,
        options: Option<Seq<char>>,
    },
    PivotRoot { new_root: Seq<char>, put_old: Seq<char> },
    ChangeDir { path: Seq<char> },
    Detach { target: Seq<char> },
}

impl View for Step {
    type V = StepView;

    open spec fn view(&self) -> StepView {
        match *self {
            Step::CreateDir { path, mode } => StepView::CreateDir { path: path@, mode },
            Step::MakeDir { path } => StepView::MakeDir { path: path@ },
            Step::RemoveDir { path } => StepView::RemoveDir { path: path@ },
            Step::RemoveTree { path } => StepView::RemoveTree { path: path@ },
            Step::WriteFile { path, mode, data } => StepView::WriteFile {
                path: path@,
                mode,
                data: data@,
            },
            Step::AppendFile { path, mode, data } => StepView::AppendFile {
                path: path@,
                mode,
                data: data@,
            },
            Step::Extract { archive, into } => StepView::Extract {
                archive: archive@,
                into: into@,
            },
            Step::Rename { from, to } => StepView::Rename { from: from@, to: to@ },
            Step::MountUnion { upper, lower, target } => StepView::MountUnion {
                upper: upper@,
                lower: lower@,
                target: target@,
            },
            Step::MountVolume { source, target } => StepView::MountVolume {
                source: source@,
                target: target@,
            },
            Step::Unmount { target } => StepView::Unmount { target: target@ },
            Step::Mount { source, target, fstype, flags, options } => StepView::Mount {
                source: source@,
                target: target@,
                fstype: fstype@,
                flags,
                options: match options {
                    Some(d) => Some(d@),
                    None => None,
                },
            },
            Step::PivotRoot { new_root, put_old } => StepView::PivotRoot {
                new_root: new_root@,
                put_old: put_old@,
            },
            Step::ChangeDir { path } => StepView::ChangeDir { path: path@ },
            Step::Detach { target } => StepView::Detach { target: target@ },
        }
    }
}

/// What the failure of a step means for the steps after it.
#[derive(Clone, Copy, Debug, PartialEq, Eq, Structural)]
pub enum OnFailure {
    /// None of the later steps is performed.
    Abort,
    /// That many of the next steps are left out; the plan goes on behind them.
    Skip(usize),
}

/// A step of a plan.
#[derive(Clone, Debug, PartialEq, Eq)]
pub struct Planned {
    pub step: Step,
    pub on_failure: OnFailure,
}

/// A [`Planned`] step with its texts as character sequences.
pub struct PlannedView {
    pub step: StepView,
    pub on_failure: OnFailure,
}

impl View for Planned {
    type V = PlannedView;

    open spec fn view(&self) -> PlannedView {
        PlannedView { step: self.step@, on_failure: self.on_failure }
    }
}

/// A step after whose failure nothing more is done.
pub open spec fn vital(step: StepView) -> PlannedView {
    PlannedView { step, on_failure: OnFailure::Abort }
}

/// A step after whose failure the next `skip` steps are left out.
pub open spec fn lenient(step: StepView, skip: usize) -> PlannedView {
    PlannedView { step, on_failure: OnFailure::Skip(skip) }
}

/// The position of the step to perform after the step at `at` has succeeded
/// or failed; the length of the plan when the plan is over.
pub open spec fn successor(plan: Seq<PlannedView>, at: int, succeeded: bool) -> int {
    if at < 0 || at >= plan.len() {
        plan.len() as int
    } else if succeeded {
        at + 1
    } else {
        match plan[at].on_failure {
            OnFailure::Abort => plan.len() as int,
            OnFailure::Skip(n) => if at + 1 + n <= plan.len() {
                at + 1 + n
            } else {
                plan.len() as int
            },
        }
    }
}

/// Whether a walk of the plan that has come to the step at `at` performs the
/// step at `target`, where `ok` tells of each step whether it succeeds.
pub open spec fn reaches(
    plan: Seq<PlannedView>,
    ok: spec_fn(int) -> bool,
    at: int,
    target: int,
) -> bool
    decreases plan.len() - at,
{
    if at < 0 || at >= plan.len() {
        false
    } else if at == target {
        true
    } else {
        reaches(plan, ok, successor(plan, at, ok(at)), target)
    }
}

/// Whether a walk of the plan from its first step performs the step at
/// `target`, where `ok` tells of each step whether it succeeds.
pub open spec fn performs(plan: Seq<PlannedView>, ok: spec_fn(int) -> bool, target: int) -> bool {
    reaches(plan, ok, 0, target)
}

/// Whether no step of the plan is performed after a failure.
pub open spec fn all_vital(plan: Seq<PlannedView>) -> bool {
    forall|i: int| 0 <= i < plan.len() ==> (#[trigger] plan[i]).on_failure == OnFailure::Abort
}

/// In a plan that ends on the first failure, a step is performed exactly
/// where all steps before it have succeeded.
pub proof fn lemma_vital_plan_stops_at_failure(
    plan: Seq<PlannedView>,
    ok: spec_fn(int) -> bool,
    target: int,
)
    requires
        all_vital(plan),
        0 <= target < plan.len(),
    ensures
        performs(plan, ok, target) <==> forall|j: int| 0 <= j < target ==> #[trigger] ok(j),
{
    lemma_vital_walk(plan, ok, 0, target);
}

/// In a plan that ends on the first failure, a walk that has come to `at`
/// performs a later step exactly where all steps from `at` up to it succeed.
proof fn lemma_vital_walk(plan: Seq<PlannedView>, ok: spec_fn(int) -> bool, at: int, target: int)
    requires
        all_vital(plan),
        0 <= at <= target < plan.len(),
    ensures
        reaches(plan, ok, at, target) <==> forall|j: int| at <= j < target ==> #[trigger] ok(j),
    decreases target - at,
{
    if at < target {
        assert(plan[at].on_failure == OnFailure::Abort);
        if ok(at) {
            lemma_vital_walk(plan, ok, at + 1, target);
            assert((forall|j: int| at <= j < target ==> #[trigger] ok(j)) <==> (forall|j: int|
                at + 1 <= j < target ==> #[trigger] ok(j)));
        } else {
            assert(!reaches(plan, ok, plan.len() as int, target));
        }
    }
}

/// The steps of a plan alone.
pub open spec fn steps_of(plan: Seq<PlannedView>) -> Seq<StepView> {
    plan.map_values(|p: PlannedView| p.step)
}

/// Steps to perform in order.
#[derive(Clone, Debug, PartialEq, Eq)]
pub struct Plan {
    pub steps: Vec<Planned>,
}

impl View for Plan {
    type V = Seq<PlannedView>;

    open spec fn view(&self) -> Seq<PlannedView> {
        self.steps@.map_values(|p: Planned| p@)
    }
}

impl Plan {
    /// The plan without steps.
    pub fn new() -> (plan: Plan)
        ensures
            plan@ == Seq::<PlannedView>::empty(),
    {
        let plan = Plan { steps: Vec::new() };
        assert(plan@ =~= Seq::<PlannedView>::empty());
        plan
    }

    /// The number of steps.
    pub fn len(&self) -> (n: usize)
        ensures
            n == self@.len(),
    {
        self.steps.len()
    }

    /// Adds a step after whose failure nothing more is done.
    pub fn vital(&mut self, step: Step)
        ensures
            final(self)@ == old(self)@.push(vital(step@)),
    {
        self.steps.push(Planned { step, on_failure: OnFailure::Abort });
        assert(self@ =~= old(self)@.push(vital(step@)));
    }

    /// Adds a step after whose failure the next `skip` steps are left out.
    pub fn lenient(&mut self, step: Step, skip: usize)
        ensures
            final(self)@ == old(self)@.push(lenient(step@, skip)),
    {
        self.steps.push(Planned { step, on_failure: OnFailure::Skip(skip) });
        assert(self@ =~= old(self)@.push(lenient(step@, skip)));
    }

    /// Adds the steps of `more` behind those of `self`.
    pub fn append(&mut self, more: Plan)
        ensures
            final(self)@ == old(self)@ + more@,
    {
        let mut more = more;
        let ghost added = more@;
        self.steps.append(&mut more.steps);
        assert(self@ =~= old(self)@ + added);
    }

    /// The step at `at`, where the plan has one there.
    pub fn step(&self, at: usize) -> (p: Option<&Planned>)
        ensures
            p is Some <==> at < self@.len(),
            p matches Some(planned) ==> planned@ == self@[at as int],
    {
        if at < self.steps.len() {
            Some(&self.steps[at])
        } else {
            None
        }
    }

    /// The first step to perform; `None` in a plan without steps.
    pub fn first(&self) -> (r: Option<usize>)
        ensures
            r == if self@.len() > 0 {
                Some(0usize)
            } else {
                None
            },
    {
        if self.steps.len() > 0 {
            Some(0)
        } else {
            None
        }
    }

    /// The step to perform after the step at `at` has succeeded or failed
    /// (see [`successor`]); `None` when the plan is over.
    pub fn next(&self, at: usize, succeeded: bool) -> (r: Option<usize>)
        ensures
            r == if successor(self@, at as int, succeeded) < self@.len() {
                Some(successor(self@, at as int, succeeded) as usize)
            } else {
                None
            },
            r matches Some(n) ==> at < n < self@.len(),
    {
        let len = self.steps.len();
        if at >= len {
            return None;
        }
        let after = if succeeded {
            at + 1
        } else {
            match self.steps[at].on_failure {
                OnFailure::Abort => len,
                OnFailure::Skip(n) => if n <= len - (at + 1) {
                    at + 1 + n
                } else {
                    len
                },
            }
        };
        if after < len {
            Some(after)
        } else {
            None
        }
    }
}

} // verus!
