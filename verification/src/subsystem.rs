//! The resource controllers of the kernel's control groups: `cpu`, `cpuset`
//! and `memory`. Each is found through the mount table, has one directory per
//! group below its mount point, and takes its limit through a control file
//! in that directory.

use vstd::prelude::*;
use crate::plan::{vital, Plan, PlannedView, Step, StepView};
use crate::text::{
    followed_by, decimal, decimal_of, drop_text, has_text, join, join_path, lines, split,
    split_on, split_words, without, words,
};

verus! {

/// Permissions of a control file that is written to.
pub const CONTROL_FILE_MODE: u32 = 0o644;

/// The limits of a container. An empty text leaves that resource unlimited.
#[derive(Clone, Debug, PartialEq, Eq)]
pub struct ResourceConfig {
    pub memory_limit: String,
    pub cpu_share: String,
    pub cpu_set: String,
}

/// A [`ResourceConfig`] with its texts as character sequences.
pub struct Limits {
    pub memory_limit: Seq<char>,
    pub cpu_share: Seq<char>,
    pub cpu_set: Seq<char>,
}

impl View for ResourceConfig {
    type V = Limits;

    open spec fn view(&self) -> Limits {
        Limits {
            memory_limit: self.memory_limit@,
            cpu_share: self.cpu_share@,
            cpu_set: self.cpu_set@,
        }
    }
}

/// Why a control group cannot be used.
#[derive(Clone, Debug, PartialEq, Eq)]
pub enum CgroupError {
    /// The mount table shows no mount of the controller.
    NotMounted { subsystem: String },
    /// The directory of the group does not exist and was not to be created.
    NotFound { path: String },
}

/// A [`CgroupError`] with its texts as character sequences.
pub enum CgroupErrorView {
    NotMounted { subsystem: Seq<char> },
    NotFound { path: Seq<char> },
}

impl View for CgroupError {
    type V = CgroupErrorView;

    open spec fn view(&self) -> CgroupErrorView {
        match *self {
            CgroupError::NotMounted { subsystem } => CgroupErrorView::NotMounted {
                subsystem: subsystem@,
            },
            CgroupError::NotFound { path } => CgroupErrorView::NotFound { path: path@ },
        }
    }
}

impl CgroupError {
    /// What to say of the error.
    pub open spec fn message_of(e: CgroupErrorView) -> Seq<char> {
        match e {
            CgroupErrorView::NotMounted { subsystem } => "cgroup subsystem is not mounted: "@
                + subsystem,
            CgroupErrorView::NotFound { path } => "error create cgroup "@ + path,
        }
    }

    /// What to say of the error.
    pub fn message(&self) -> (m: String)
        ensures
            m@ == CgroupError::message_of(self@),
    {
        match self {
            CgroupError::NotMounted { subsystem } => followed_by(
                "cgroup subsystem is not mounted: ",
                subsystem.as_str(),
            ),
            CgroupError::NotFound { path } => followed_by("error create cgroup ", path.as_str()),
        }
    }
}

/// The mount point that a line of the mount table gives for a controller: its
/// fifth field, where the line has five fields or more and the last of them,
/// a list separated by commas, names the controller.
pub open spec fn mount_entry(line: Seq<char>, subsystem: Seq<char>) -> Option<Seq<char>> {
    let fields = words(line);
    if fields.len() >= 5 && split_on(fields.last(), ',').contains(subsystem) {
        Some(fields[4])
    } else {
        None
    }
}

/// The mount point that the first of `table` with a [`mount_entry`] for the
/// controller gives.
pub open spec fn first_entry(table: Seq<Seq<char>>, subsystem: Seq<char>) -> Option<Seq<char>>
    decreases table.len(),
{
    if table.len() == 0 {
        None
    } else {
        match mount_entry(table[0], subsystem) {
            Some(point) => Some(point),
            None => first_entry(table.drop_first(), subsystem),
        }
    }
}

/// Where the controller is mounted according to the mount table `mountinfo`,
/// which holds one mount per line.
pub open spec fn cgroup_mountpoint(mountinfo: Seq<char>, subsystem: Seq<char>) -> Option<
    Seq<char>,
> {
    first_entry(lines(mountinfo), subsystem)
}

/// [`first_entry`] gives the entry of the line with the least index that has
/// one.
pub proof fn lemma_first_entry_is_least(table: Seq<Seq<char>>, subsystem: Seq<char>)
    ensures
        match first_entry(table, subsystem) {
            Some(point) => exists|i: int|
                0 <= i < table.len() && mount_entry(table[i], subsystem) == Some(point)
                    && forall|j: int|
                    0 <= j < i ==> mount_entry(#[trigger] table[j], subsystem) is None,
            None => forall|i: int|
                0 <= i < table.len() ==> mount_entry(#[trigger] table[i], subsystem) is None,
        },
    decreases table.len(),
{
    if table.len() > 0 {
        let rest = table.drop_first();
        match mount_entry(table[0], subsystem) {
            Some(point) => {
                assert(forall|j: int|
                    0 <= j < 0 ==> mount_entry(#[trigger] table[j], subsystem) is None);
            },
            None => {
                lemma_first_entry_is_least(rest, subsystem);
                match first_entry(rest, subsystem) {
                    Some(point) => {
                        let i = choose|i: int|
                            0 <= i < rest.len() && mount_entry(rest[i], subsystem) == Some(point)
                                && forall|j: int|
                                0 <= j < i ==> mount_entry(#[trigger] rest[j], subsystem)
                                    is None;
                        assert(table[i + 1] == rest[i]);
                        assert forall|j: int| 0 <= j < i + 1 implies mount_entry(
                            #[trigger] table[j],
                            subsystem,
                        ) is None by {
                            if j > 0 {
                                assert(table[j] == rest[j - 1]);
                            }
                        }
                    },
                    None => {
                        assert forall|i: int| 0 <= i < table.len() implies mount_entry(
                            #[trigger] table[i],
                            subsystem,
                        ) is None by {
                            if i > 0 {
                                assert(table[i] == rest[i - 1]);
                            }
                        }
                    },
                }
            },
        }
    }
}

/// The mount point that `line` gives for the controller (see
/// [`mount_entry`]).
fn entry_of(line: &str, subsystem: &str) -> (r: Option<String>)
    ensures
        match r {
            Some(point) => mount_entry(line@, subsystem@) == Some(point@),
            None => mount_entry(line@, subsystem@) is None,
        },
{
    let fields = split_words(line);
    if fields.len() < 5 {
        return None;
    }
    let options = split(fields[fields.len() - 1].as_str(), ',');
    if has_text(&options, subsystem) {
        Some(fields[4].clone())
    } else {
        None
    }
}

/// Finds the mount point of the controller `subsystem` in the mount table
/// `mountinfo` (see [`cgroup_mountpoint`]).
pub fn find_cgroup_mountpoint(subsystem: &str, mountinfo: &str) -> (r: Result<
    String,
    CgroupError,
>)
    ensures
        match r {
            Ok(point) => cgroup_mountpoint(mountinfo@, subsystem@) == Some(point@),
            Err(e) => cgroup_mountpoint(mountinfo@, subsystem@) is None && e@ == (
            CgroupErrorView::NotMounted { subsystem: subsystem@ }),
        },
{
    let table = split(mountinfo, '\n');
    let mut i: usize = 0;
    assert(table.deep_view().skip(0) =~= table.deep_view());
    while i < table.len()
        invariant
            i <= table.len(),
            table.deep_view() == lines(mountinfo@),
            first_entry(lines(mountinfo@), subsystem@) == first_entry(
                table.deep_view().skip(i as int),
                subsystem@,
            ),
        decreases table.len() - i,
    {
        let ghost rest = table.deep_view().skip(i as int);
        assert(rest[0] == table.deep_view()[i as int]);
        assert(rest.drop_first() =~= table.deep_view().skip(i + 1));
        match entry_of(table[i].as_str(), subsystem) {
            Some(point) => {
                return Ok(point);
            },
            None => {},
        }
        i += 1;
    }
    assert(table.deep_view().skip(table.len() as int).len() == 0);
    Err(CgroupError::NotMounted { subsystem: subsystem.to_owned() })
}

/// The directory of a control group, and whether it has to be created.
#[derive(Clone, Debug, PartialEq, Eq)]
pub struct CgroupDir {
    pub path: String,
    pub create: bool,
}

/// A [`CgroupDir`] with its path as a character sequence.
pub struct GroupDir {
    pub path: Seq<char>,
    pub create: bool,
}

impl View for CgroupDir {
    type V = GroupDir;

    open spec fn view(&self) -> GroupDir {
        GroupDir { path: self.path@, create: self.create }
    }
}

/// The directory of the group `cgroup_path` of a controller: the path taken
/// from the controller's mount point. It is there already where `existing`
/// names it; else it is to be created where `auto_create` allows that, and
/// missing where not.
pub open spec fn group_dir(
    subsystem: Seq<char>,
    cgroup_path: Seq<char>,
    auto_create: bool,
    mountinfo: Seq<char>,
    existing: Seq<Seq<char>>,
) -> Result<GroupDir, CgroupErrorView> {
    match cgroup_mountpoint(mountinfo, subsystem) {
        None => Err(CgroupErrorView::NotMounted { subsystem }),
        Some(point) => {
            let path = join_path(point, cgroup_path);
            if existing.contains(path) {
                Ok(GroupDir { path, create: false })
            } else if auto_create {
                Ok(GroupDir { path, create: true })
            } else {
                Err(CgroupErrorView::NotFound { path })
            }
        },
    }
}

/// Finds the directory of the group `cgroup_path` of the controller
/// `subsystem` (see [`group_dir`]). `mountinfo` is the mount table,
/// `existing` names the directories that exist.
pub fn get_cgroup_path(
    subsystem: &str,
    cgroup_path: &str,
    auto_create: bool,
    mountinfo: &str,
    existing: &Vec<String>,
) -> (r: Result<CgroupDir, CgroupError>)
    ensures
        match r {
            Ok(dir) => group_dir(
                subsystem@,
                cgroup_path@,
                auto_create,
                mountinfo@,
                existing.deep_view(),
            ) == Ok::<_, CgroupErrorView>(dir@),
            Err(e) => group_dir(
                subsystem@,
                cgroup_path@,
                auto_create,
                mountinfo@,
                existing.deep_view(),
            ) == Err::<GroupDir, _>(e@),
        },
{
    match find_cgroup_mountpoint(subsystem, mountinfo) {
        Err(e) => Err(e),
        Ok(point) => {
            let path = join(point.as_str(), cgroup_path);
            if has_text(existing, path.as_str()) {
                Ok(CgroupDir { path, create: false })
            } else if auto_create {
                Ok(CgroupDir { path, create: true })
            } else {
                Err(CgroupError::NotFound { path })
            }
        },
    }
}

/// The steps that a controller asks for, and the error that ends them.
#[derive(Clone, Debug, PartialEq, Eq)]
pub struct CgroupPlan {
    /// The steps to perform, in order; after the first failure nothing more
    /// is done.
    pub plan: Plan,
    /// The error to report once the steps have been performed, where the
    /// planning came to an end on one.
    pub error: Option<CgroupError>,
}

/// What a controller asks for, with the directories known to exist after it.
pub struct Outcome {
    pub plan: Seq<PlannedView>,
    pub error: Option<CgroupErrorView>,
    pub known: Seq<Seq<char>>,
}

/// A [`CgroupPlan`] with its texts as character sequences.
pub struct GroupPlan {
    pub plan: Seq<PlannedView>,
    pub error: Option<CgroupErrorView>,
}

impl View for CgroupPlan {
    type V = GroupPlan;

    open spec fn view(&self) -> GroupPlan {
        GroupPlan {
            plan: self.plan@,
            error: match self.error {
                Some(e) => Some(e@),
                None => None,
            },
        }
    }
}

impl Outcome {
    /// The plan and the error alone.
    pub open spec fn result(self) -> GroupPlan {
        GroupPlan { plan: self.plan, error: self.error }
    }
}

impl CgroupPlan {
    /// The plan together with the directories known to exist after it.
    pub open spec fn outcome(&self, known: Seq<Seq<char>>) -> Outcome {
        Outcome {
            plan: self.plan@,
            error: match self.error {
                Some(e) => Some(e@),
                None => None,
            },
            known,
        }
    }
}

/// Nothing done, on the error `e`.
pub open spec fn refused(e: CgroupErrorView, known: Seq<Seq<char>>) -> Outcome {
    Outcome { plan: Seq::empty(), error: Some(e), known }
}

/// `first`, and `second` after it unless `first` ended on an error.
pub open spec fn and_then(first: Outcome, second: Outcome) -> Outcome {
    if first.error is Some {
        first
    } else {
        Outcome { plan: first.plan + second.plan, error: second.error, known: second.known }
    }
}

/// What a controller does to limit a group: the group's directory is made
/// unless it is known to exist, and the limit is written to the control file
/// unless it is empty.
pub open spec fn configured(
    subsystem: Seq<char>,
    control_file: Seq<char>,
    limit: Seq<char>,
    cgroup_path: Seq<char>,
    mountinfo: Seq<char>,
    known: Seq<Seq<char>>,
) -> Outcome {
    match group_dir(subsystem, cgroup_path, true, mountinfo, known) {
        Err(e) => refused(e, known),
        Ok(dir) => {
            let make = if dir.create {
                seq![vital(StepView::MakeDir { path: dir.path })]
            } else {
                Seq::empty()
            };
            let write = if limit.len() > 0 {
                seq![
                    vital(
                        StepView::WriteFile {
                            path: join_path(dir.path, control_file),
                            mode: CONTROL_FILE_MODE,
                            data: limit,
                        },
                    ),
                ]
            } else {
                Seq::empty()
            };
            Outcome {
                plan: make + write,
                error: None,
                known: if dir.create {
                    known.push(dir.path)
                } else {
                    known
                },
            }
        },
    }
}

/// What a controller does to put a process into a group: the process's
/// number is added, in decimal, to the file `tasks` of the group's directory,
/// which has to exist. The processes that the file lists already stay.
pub open spec fn attached(
    subsystem: Seq<char>,
    pid: int,
    cgroup_path: Seq<char>,
    mountinfo: Seq<char>,
    known: Seq<Seq<char>>,
) -> Outcome {
    match group_dir(subsystem, cgroup_path, false, mountinfo, known) {
        Err(e) => refused(e, known),
        Ok(dir) => Outcome {
            plan: seq![
                vital(
                    StepView::AppendFile {
                        path: join_path(dir.path, "tasks"@),
                        mode: CONTROL_FILE_MODE,
                        data: decimal(pid),
                    },
                ),
            ],
            error: None,
            known,
        },
    }
}

/// What a controller does to give a group up: the group's directory is
/// removed where it is known to exist. A group that is not there, or a
/// controller that is not mounted, is no error: nothing is left to remove.
pub open spec fn removed(
    subsystem: Seq<char>,
    cgroup_path: Seq<char>,
    mountinfo: Seq<char>,
    known: Seq<Seq<char>>,
) -> Outcome {
    match group_dir(subsystem, cgroup_path, false, mountinfo, known) {
        Err(e) => Outcome { plan: Seq::empty(), error: None, known },
        Ok(dir) => Outcome {
            plan: seq![vital(StepView::RemoveDir { path: dir.path })],
            error: None,
            known: without(known, dir.path),
        },
    }
}

/// A resource controller.
pub trait Subsystem {
    /// The name under which the kernel mounts the controller.
    spec fn kernel_name(&self) -> Seq<char>;

    /// The name of the control file that takes the controller's limit.
    spec fn control_file(&self) -> Seq<char>;

    /// The limit among `res` that the controller enforces.
    spec fn limit_of(&self, res: Limits) -> Seq<char>;

    /// The name under which the kernel mounts the controller.
    fn name(&self) -> (n: String)
        ensures
            n@ == self.kernel_name(),
    ;

    /// The name of the control file that takes the controller's limit.
    fn control(&self) -> (f: String)
        ensures
            f@ == self.control_file(),
    ;

    /// The limit among `res` that the controller enforces.
    fn limit(&self, res: &ResourceConfig) -> (v: String)
        ensures
            v@ == self.limit_of(res@),
    ;

    /// Plans the limit of the group `cgroup_path` (see [`configured`]).
    /// `mountinfo` is the mount table; `known` names the directories that
    /// exist, and is brought up to date with the plan.
    fn set(
        &self,
        cgroup_path: &str,
        res: &ResourceConfig,
        mountinfo: &str,
        known: &mut Vec<String>,
    ) -> (r: CgroupPlan)
        ensures
            r.outcome(final(known).deep_view()) == configured(
                self.kernel_name(),
                self.control_file(),
                self.limit_of(res@),
                cgroup_path@,
                mountinfo@,
                old(known).deep_view(),
            ),
    {
        let name = self.name();
        let mut plan = Plan::new();
        match get_cgroup_path(name.as_str(), cgroup_path, true, mountinfo, known) {
            Err(e) => CgroupPlan { plan, error: Some(e) },
            Ok(dir) => {
                if dir.create {
                    plan.vital(Step::MakeDir { path: dir.path.clone() });
                    let ghost before = known.deep_view();
                    known.push(dir.path.clone());
                    assert(known.deep_view() =~= before.push(dir.path@));
                }
                let limit = self.limit(res);
                if !limit.as_str().is_empty() {
                    let file = self.control();
                    plan.vital(
                        Step::WriteFile {
                            path: join(dir.path.as_str(), file.as_str()),
                            mode: CONTROL_FILE_MODE,
                            data: limit,
                        },
                    );
                }
                assert(plan@ =~= configured(
                    self.kernel_name(),
                    self.control_file(),
                    self.limit_of(res@),
                    cgroup_path@,
                    mountinfo@,
                    old(known).deep_view(),
                ).plan);
                CgroupPlan { plan, error: None }
            },
        }
    }

    /// Plans the entry of the process `pid` into the group `cgroup_path`
    /// (see [`attached`]). `mountinfo` is the mount table, `known` names the
    /// directories that exist.
    fn apply(&self, cgroup_path: &str, pid: i32, mountinfo: &str, known: &Vec<String>) -> (r:
        CgroupPlan)
        ensures
            r.outcome(known.deep_view()) == attached(
                self.kernel_name(),
                pid as int,
                cgroup_path@,
                mountinfo@,
                known.deep_view(),
            ),
    {
        let name = self.name();
        let mut plan = Plan::new();
        match get_cgroup_path(name.as_str(), cgroup_path, false, mountinfo, known) {
            Err(e) => CgroupPlan { plan, error: Some(e) },
            Ok(dir) => {
                plan.vital(
                    Step::AppendFile {
                        path: join(dir.path.as_str(), "tasks"),
                        mode: CONTROL_FILE_MODE,
                        data: decimal_of(pid),
                    },
                );
                CgroupPlan { plan, error: None }
            },
        }
    }

    /// Plans the removal of the group `cgroup_path` (see [`removed`]).
    /// `mountinfo` is the mount table; `known` names the directories that
    /// exist, and is brought up to date with the plan.
    fn remove(&self, cgroup_path: &str, mountinfo: &str, known: &mut Vec<String>) -> (r:
        CgroupPlan)
        ensures
            r.outcome(final(known).deep_view()) == removed(
                self.kernel_name(),
                cgroup_path@,
                mountinfo@,
                old(known).deep_view(),
            ),
    {
        let name = self.name();
        let mut plan = Plan::new();
        match get_cgroup_path(name.as_str(), cgroup_path, false, mountinfo, known) {
            Err(_) => CgroupPlan { plan, error: None },
            Ok(dir) => {
                let rest = drop_text(known, dir.path.as_str());
                *known = rest;
                plan.vital(Step::RemoveDir { path: dir.path });
                CgroupPlan { plan, error: None }
            },
        }
    }
}

/// The controller of processor time.
#[derive(Clone, Copy, Debug, PartialEq, Eq)]
pub struct CpuSubSystem {}

/// The controller of the processors and memory nodes that may be used.
#[derive(Clone, Copy, Debug, PartialEq, Eq)]
pub struct CpusetSubSystem {}

/// The controller of memory.
#[derive(Clone, Copy, Debug, PartialEq, Eq)]
pub struct MemorySubSystem {}

impl Subsystem for CpuSubSystem {
    open spec fn kernel_name(&self) -> Seq<char> {
        "cpu"@
    }

    open spec fn control_file(&self) -> Seq<char> {
        "cpu.shares"@
    }

    open spec fn limit_of(&self, res: Limits) -> Seq<char> {
        res.cpu_share
    }

    fn name(&self) -> (n: String) {
        "cpu".to_owned()
    }

    fn control(&self) -> (f: String) {
        "cpu.shares".to_owned()
    }

    fn limit(&self, res: &ResourceConfig) -> (v: String) {
        res.cpu_share.clone()
    }
}

impl Subsystem for CpusetSubSystem {
    open spec fn kernel_name(&self) -> Seq<char> {
        "cpuset"@
    }

    open spec fn control_file(&self) -> Seq<char> {
        "cpuset.cpus"@
    }

    open spec fn limit_of(&self, res: Limits) -> Seq<char> {
        res.cpu_set
    }

    fn name(&self) -> (n: String) {
        "cpuset".to_owned()
    }

    fn control(&self) -> (f: String) {
        "cpuset.cpus".to_owned()
    }

    fn limit(&self, res: &ResourceConfig) -> (v: String) {
        res.cpu_set.clone()
    }
}

impl Subsystem for MemorySubSystem {
    open spec fn kernel_name(&self) -> Seq<char> {
        "memory"@
    }

    open spec fn control_file(&self) -> Seq<char> {
        "memory.limit_in_bytes"@
    }

    open spec fn limit_of(&self, res: Limits) -> Seq<char> {
        res.memory_limit
    }

    fn name(&self) -> (n: String) {
        "memory".to_owned()
    }

    fn control(&self) -> (f: String) {
        "memory.limit_in_bytes".to_owned()
    }

    fn limit(&self, res: &ResourceConfig) -> (v: String) {
        res.memory_limit.clone()
    }
}

} // verus!
