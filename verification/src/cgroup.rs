//! The control group of a container: one group of the same name under each
//! resource controller, limited, entered and given up together.

use vstd::prelude::*;
use crate::host::{
    after, effect, entries, lemma_after_concat, lemma_after_first, lemma_after_one,
    lemma_steps_of_concat, mounted_within, performable, Host,
};
use crate::plan::{steps_of, StepView};
use crate::subsystem::{
    and_then, attached, cgroup_mountpoint, configured, get_cgroup_path, removed, CgroupPlan,
    CpuSubSystem, CpusetSubSystem, Limits, MemorySubSystem, Outcome, ResourceConfig, Subsystem,
    CONTROL_FILE_MODE,
};
use crate::text::{copy_texts, decimal, join_path, lemma_without_lacks};

verus! {

/// The control group of a container.
#[derive(Clone, Debug, PartialEq, Eq)]
pub struct CgroupManager {
    /// The path of the group below the mount point of each controller.
    pub path: String,
}

/// What one controller does to limit the group `path`.
pub open spec fn limited_by<S: Subsystem>(
    controller: S,
    path: Seq<char>,
    limits: Limits,
    mountinfo: Seq<char>,
    known: Seq<Seq<char>>,
) -> Outcome {
    configured(
        controller.kernel_name(),
        controller.control_file(),
        controller.limit_of(limits),
        path,
        mountinfo,
        known,
    )
}

/// The limits of the group `path` under all controllers: `cpu`, then
/// `cpuset`, then `memory`, each knowing of the directories that the ones
/// before it make. The first error ends the planning; what was planned before
/// it stays.
pub open spec fn limited(
    path: Seq<char>,
    limits: Limits,
    mountinfo: Seq<char>,
    existing: Seq<Seq<char>>,
) -> Outcome {
    let cpu = limited_by(CpuSubSystem {  }, path, limits, mountinfo, existing);
    let cpuset = limited_by(CpusetSubSystem {  }, path, limits, mountinfo, cpu.known);
    let memory = limited_by(MemorySubSystem {  }, path, limits, mountinfo, cpuset.known);
    and_then(cpu, and_then(cpuset, memory))
}

/// The entry of the process `pid` into the group `path` under all
/// controllers, in the same order. The first error ends the planning.
pub open spec fn entered(
    path: Seq<char>,
    pid: int,
    mountinfo: Seq<char>,
    existing: Seq<Seq<char>>,
) -> Outcome {
    let cpu = attached(CpuSubSystem {  }.kernel_name(), pid, path, mountinfo, existing);
    let cpuset = attached(CpusetSubSystem {  }.kernel_name(), pid, path, mountinfo, existing);
    let memory = attached(MemorySubSystem {  }.kernel_name(), pid, path, mountinfo, existing);
    and_then(cpu, and_then(cpuset, memory))
}

/// The removal of the group `path` under all controllers, in the same order,
/// each knowing of the directories that the ones before it remove.
pub open spec fn given_up(
    path: Seq<char>,
    mountinfo: Seq<char>,
    existing: Seq<Seq<char>>,
) -> Outcome {
    let cpu = removed(CpuSubSystem {  }.kernel_name(), path, mountinfo, existing);
    let cpuset = removed(CpusetSubSystem {  }.kernel_name(), path, mountinfo, cpu.known);
    let memory = removed(MemorySubSystem {  }.kernel_name(), path, mountinfo, cpuset.known);
    and_then(cpu, and_then(cpuset, memory))
}

/// The directories of the group `path` under the controllers that the mount
/// table shows, in the order of the controllers.
pub open spec fn group_dirs(path: Seq<char>, mountinfo: Seq<char>) -> Seq<Seq<char>> {
    let dir = |subsystem: Seq<char>|
        match group_path(subsystem, path, mountinfo) {
            Some(dir) => seq![dir],
            None => Seq::empty(),
        };
    dir("cpu"@) + dir("cpuset"@) + dir("memory"@)
}

/// `first`, and `second` after it.
fn chain(first: CgroupPlan, second: CgroupPlan) -> (r: CgroupPlan)
    requires
        first.error is None,
    ensures
        forall|a: Seq<Seq<char>>, b: Seq<Seq<char>>|
            r.outcome(b) == and_then(#[trigger] first.outcome(a), #[trigger] second.outcome(b)),
{
    let mut plan = first.plan;
    plan.append(second.plan);
    CgroupPlan { plan, error: second.error }
}

impl CgroupManager {
    /// The control group with the path `path`.
    pub fn new_cgroup_manager(path: &str) -> (manager: CgroupManager)
        ensures
            manager.path@ == path@,
    {
        CgroupManager { path: path.to_owned() }
    }

    /// The directories of the group under the controllers that the mount
    /// table `mountinfo` shows: the ones to ask the host about before a plan
    /// is made.
    pub fn directories(&self, mountinfo: &str) -> (dirs: Vec<String>)
        ensures
            dirs.deep_view() == group_dirs(self.path@, mountinfo@),
    {
        let mut dirs: Vec<String> = Vec::new();
        let nothing: Vec<String> = Vec::new();
        let path = self.path.as_str();
        assert(dirs.deep_view() =~= Seq::<Seq<char>>::empty());
        let ghost none = dirs.deep_view();
        if let Ok(dir) = get_cgroup_path("cpu", path, true, mountinfo, &nothing) {
            dirs.push(dir.path);
            assert(dirs.deep_view() =~= none + seq![dir.path@]);
        }
        let ghost one = dirs.deep_view();
        if let Ok(dir) = get_cgroup_path("cpuset", path, true, mountinfo, &nothing) {
            dirs.push(dir.path);
            assert(dirs.deep_view() =~= one + seq![dir.path@]);
        }
        let ghost two = dirs.deep_view();
        if let Ok(dir) = get_cgroup_path("memory", path, true, mountinfo, &nothing) {
            dirs.push(dir.path);
            assert(dirs.deep_view() =~= two + seq![dir.path@]);
        }
        assert(dirs.deep_view() =~= group_dirs(self.path@, mountinfo@));
        dirs
    }

    /// Plans the limits `res` of the group (see [`limited`]). `mountinfo` is
    /// the mount table, `existing` names the directories that exist.
    pub fn set(&self, res: &ResourceConfig, mountinfo: &str, existing: &Vec<String>) -> (r:
        CgroupPlan)
        ensures
            r@ == limited(self.path@, res@, mountinfo@, existing.deep_view()).result(),
    {
        let mut known = copy_texts(existing);
        let path = self.path.as_str();
        let cpu = CpuSubSystem {  }.set(path, res, mountinfo, &mut known);
        if cpu.error.is_some() {
            return cpu;
        }
        let ghost k1 = known.deep_view();
        let cpuset = CpusetSubSystem {  }.set(path, res, mountinfo, &mut known);
        if cpuset.error.is_some() {
            let ghost k2 = known.deep_view();
            let r = chain(cpu, cpuset);
            assert(r.outcome(k2) == and_then(cpu.outcome(k1), cpuset.outcome(k2)));
            return r;
        }
        let ghost k2 = known.deep_view();
        let memory = MemorySubSystem {  }.set(path, res, mountinfo, &mut known);
        let ghost k3 = known.deep_view();
        let rest = chain(cpuset, memory);
        assert(rest.outcome(k3) == and_then(cpuset.outcome(k2), memory.outcome(k3)));
        let r = chain(cpu, rest);
        assert(r.outcome(k3) == and_then(cpu.outcome(k1), rest.outcome(k3)));
        r
    }

    /// Plans the entry of the process `pid` into the group (see
    /// [`entered`]). `mountinfo` is the mount table, `existing` names the
    /// directories that exist.
    pub fn apply(&self, pid: libc::pid_t, mountinfo: &str, existing: &Vec<String>) -> (r:
        CgroupPlan)
        ensures
            r@ == entered(self.path@, pid as int, mountinfo@, existing.deep_view()).result(),
    {
        let path = self.path.as_str();
        let ghost k = existing.deep_view();
        let cpu = CpuSubSystem {  }.apply(path, pid, mountinfo, existing);
        if cpu.error.is_some() {
            return cpu;
        }
        let cpuset = CpusetSubSystem {  }.apply(path, pid, mountinfo, existing);
        if cpuset.error.is_some() {
            let r = chain(cpu, cpuset);
            assert(r.outcome(k) == and_then(cpu.outcome(k), cpuset.outcome(k)));
            return r;
        }
        let memory = MemorySubSystem {  }.apply(path, pid, mountinfo, existing);
        let rest = chain(cpuset, memory);
        assert(rest.outcome(k) == and_then(cpuset.outcome(k), memory.outcome(k)));
        let r = chain(cpu, rest);
        assert(r.outcome(k) == and_then(cpu.outcome(k), rest.outcome(k)));
        r
    }

    /// Plans the removal of the group (see [`given_up`]). `mountinfo` is the
    /// mount table, `existing` names the directories that exist.
    pub fn destroy(&self, mountinfo: &str, existing: &Vec<String>) -> (r: CgroupPlan)
        ensures
            r@ == given_up(self.path@, mountinfo@, existing.deep_view()).result(),
    {
        let mut known = copy_texts(existing);
        let path = self.path.as_str();
        let cpu = CpuSubSystem {  }.remove(path, mountinfo, &mut known);
        let ghost k1 = known.deep_view();
        let cpuset = CpusetSubSystem {  }.remove(path, mountinfo, &mut known);
        let ghost k2 = known.deep_view();
        let memory = MemorySubSystem {  }.remove(path, mountinfo, &mut known);
        let ghost k3 = known.deep_view();
        let rest = chain(cpuset, memory);
        assert(rest.outcome(k3) == and_then(cpuset.outcome(k2), memory.outcome(k3)));
        let r = chain(cpu, rest);
        assert(r.outcome(k3) == and_then(cpu.outcome(k1), rest.outcome(k3)));
        r
    }
}

/// The directory of the group `path` under the controller `subsystem`, where
/// the mount table shows the controller.
pub open spec fn group_path(subsystem: Seq<char>, path: Seq<char>, mountinfo: Seq<char>) -> Option<
    Seq<char>,
> {
    match cgroup_mountpoint(mountinfo, subsystem) {
        Some(point) => Some(join_path(point, path)),
        None => None,
    }
}

/// Limits reach the controllers that they are meant for, and no other.
///
/// Where only the share of processor time is limited, whatever the group, the
/// mount table and the directories that exist, every write of the plan is the
/// one of that share to the file `cpu.shares` of the group's directory under
/// the controller `cpu`; and where that controller is mounted and the share
/// is not empty, the plan holds this write.
pub proof fn lemma_only_cpu_share_is_written(
    path: Seq<char>,
    limits: Limits,
    mountinfo: Seq<char>,
    existing: Seq<Seq<char>>,
)
    requires
        limits.memory_limit.len() == 0,
        limits.cpu_set.len() == 0,
    ensures
        ({
            let plan = limited(path, limits, mountinfo, existing).plan;
            let dir = group_path("cpu"@, path, mountinfo);
            let write = StepView::WriteFile {
                path: join_path(dir->0, "cpu.shares"@),
                mode: CONTROL_FILE_MODE,
                data: limits.cpu_share,
            };
            &&& forall|i: int|
                0 <= i < plan.len() && #[trigger] plan[i].step is WriteFile ==> dir is Some
                    && limits.cpu_share.len() > 0 && plan[i].step == write
            &&& dir is Some && limits.cpu_share.len() > 0 ==> exists|i: int|
                0 <= i < plan.len() && #[trigger] plan[i].step == write
        }),
{
    let cpu = limited_by(CpuSubSystem {  }, path, limits, mountinfo, existing);
    let cpuset = limited_by(CpusetSubSystem {  }, path, limits, mountinfo, cpu.known);
    let memory = limited_by(MemorySubSystem {  }, path, limits, mountinfo, cpuset.known);
    let plan = limited(path, limits, mountinfo, existing).plan;
    let dir = group_path("cpu"@, path, mountinfo);
    let write = StepView::WriteFile {
        path: join_path(dir->0, "cpu.shares"@),
        mode: CONTROL_FILE_MODE,
        data: limits.cpu_share,
    };
    assert forall|i: int| 0 <= i < cpuset.plan.len() implies !(cpuset.plan[i].step
        is WriteFile) by {}
    assert forall|i: int| 0 <= i < memory.plan.len() implies !(memory.plan[i].step
        is WriteFile) by {}
    assert forall|i: int| 0 <= i < cpu.plan.len() && cpu.plan[i].step is WriteFile implies dir
        is Some && limits.cpu_share.len() > 0 && cpu.plan[i].step == write by {}
    if dir is Some && limits.cpu_share.len() > 0 {
        let at = cpu.plan.len() - 1;
        assert(cpu.plan[at].step == write);
        assert(plan[at].step == write);
    }
}

/// A process that is put into the group is put under every controller.
///
/// Where the planning of the entry ends without error, every controller is
/// mounted and has the group's directory, and the plan is the three
/// additions, one for each controller in their order, of the decimal number
/// of the process to the file `tasks` of that directory. Where it ends on an error,
/// the plan holds the writes for the controllers before the one that failed.
pub proof fn lemma_entry_reaches_every_controller(
    path: Seq<char>,
    pid: int,
    mountinfo: Seq<char>,
    existing: Seq<Seq<char>>,
)
    ensures
        ({
            let out = entered(path, pid, mountinfo, existing);
            let write = |subsystem: Seq<char>|
                StepView::AppendFile {
                    path: join_path(group_path(subsystem, path, mountinfo)->0, "tasks"@),
                    mode: CONTROL_FILE_MODE,
                    data: decimal(pid),
                };
            let there = |subsystem: Seq<char>|
                group_path(subsystem, path, mountinfo) matches Some(dir) && existing.contains(
                    dir,
                );
            &&& out.error is None <==> there("cpu"@) && there("cpuset"@) && there("memory"@)
            &&& out.error is None ==> steps_of(out.plan) == seq![
                write("cpu"@),
                write("cpuset"@),
                write("memory"@),
            ]
            &&& out.plan.len() <= 3
            &&& forall|i: int|
                0 <= i < out.plan.len() ==> (#[trigger] out.plan[i]).step == write(
                    if i == 0 {
                        "cpu"@
                    } else if i == 1 {
                        "cpuset"@
                    } else {
                        "memory"@
                    },
                )
        }),
{
    let out = entered(path, pid, mountinfo, existing);
    if out.error is None {
        assert(steps_of(out.plan).len() == 3);
        assert(steps_of(out.plan) =~= seq![
            steps_of(out.plan)[0],
            steps_of(out.plan)[1],
            steps_of(out.plan)[2],
        ]);
    }
}

/// Putting a process into the group keeps the processes that are in it.
///
/// Where the planning of the entry ends without error, its steps can be
/// performed on every host, and under each controller the file `tasks` of the
/// group then holds what it held before, followed by the decimal number of
/// the process, once for every controller that shares the file. Directories
/// and mounts are left as they were.
pub proof fn lemma_entry_keeps_earlier_tasks(
    host: Host,
    path: Seq<char>,
    pid: int,
    mountinfo: Seq<char>,
    existing: Seq<Seq<char>>,
    subsystem: Seq<char>,
)
    requires
        entered(path, pid, mountinfo, existing).error is None,
        subsystem == "cpu"@ || subsystem == "cpuset"@ || subsystem == "memory"@,
    ensures
        ({
            let steps = steps_of(entered(path, pid, mountinfo, existing).plan);
            let end = after(host, steps);
            let file = join_path(group_path(subsystem, path, mountinfo)->0, "tasks"@);
            let before = entries(host, file);
            let now = entries(end, file);
            &&& performable(host, steps)
            &&& now.len() > before.len()
            &&& now.take(before.len() as int) == before
            &&& forall|i: int| before.len() <= i < now.len() ==> now[i] == decimal(pid)
            &&& end.dirs == host.dirs
            &&& end.mounts == host.mounts
        }),
{
    lemma_entry_reaches_every_controller(path, pid, mountinfo, existing);
    let steps = steps_of(entered(path, pid, mountinfo, existing).plan);
    let file = join_path(group_path(subsystem, path, mountinfo)->0, "tasks"@);
    assert(steps =~= seq![steps[0]] + (seq![steps[1]] + seq![steps[2]]));
    lemma_after_first(host, steps[0], seq![steps[1]] + seq![steps[2]]);
    let h1 = effect(host, steps[0]);
    lemma_after_first(h1, steps[1], seq![steps[2]]);
    let h2 = effect(h1, steps[1]);
    lemma_after_one(h2, steps[2]);
    let h3 = effect(h2, steps[2]);
    let e0 = entries(host, file);
    let e1 = entries(h1, file);
    let e2 = entries(h2, file);
    let e3 = entries(h3, file);
    assert(e1 == e0 || e1 == e0.push(decimal(pid)));
    assert(e2 == e1 || e2 == e1.push(decimal(pid)));
    assert(e3 == e2 || e3 == e2.push(decimal(pid)));
    assert(e3.len() > e0.len());
    assert(e3.take(e0.len() as int) =~= e0);
}

/// Giving a group up twice does no harm.
///
/// Whatever the group, the mount table and the directories that exist, the
/// removal never ends on an error at planning; and planned again for the
/// directories that the first removal has left, it holds no step and leaves
/// them as they are. So does the removal of a group that was never made.
pub proof fn lemma_destroy_is_idempotent(
    path: Seq<char>,
    mountinfo: Seq<char>,
    existing: Seq<Seq<char>>,
)
    ensures
        ({
            let first = given_up(path, mountinfo, existing);
            let second = given_up(path, mountinfo, first.known);
            &&& first.error is None
            &&& second.error is None
            &&& second.plan.len() == 0
            &&& second.known == first.known
        }),
        ({
            let absent = |subsystem: Seq<char>|
                group_path(subsystem, path, mountinfo) matches Some(dir) ==> !existing.contains(
                    dir,
                );
            absent("cpu"@) && absent("cpuset"@) && absent("memory"@) ==> given_up(
                path,
                mountinfo,
                existing,
            ).plan.len() == 0 && given_up(path, mountinfo, existing).known == existing
        }),
{
    let cpu = removed("cpu"@, path, mountinfo, existing);
    let cpuset = removed("cpuset"@, path, mountinfo, cpu.known);
    let memory = removed("memory"@, path, mountinfo, cpuset.known);
    let d1 = group_path("cpu"@, path, mountinfo);
    let d2 = group_path("cpuset"@, path, mountinfo);
    let d3 = group_path("memory"@, path, mountinfo);
    if d1 is Some {
        lemma_without_lacks(existing, d1->0);
        lemma_without_lacks(cpu.known, d1->0);
        lemma_without_lacks(cpuset.known, d1->0);
    }
    if d2 is Some {
        lemma_without_lacks(existing, d2->0);
        lemma_without_lacks(cpu.known, d2->0);
        lemma_without_lacks(cpuset.known, d2->0);
    }
    if d3 is Some {
        lemma_without_lacks(existing, d3->0);
        lemma_without_lacks(cpu.known, d3->0);
        lemma_without_lacks(cpuset.known, d3->0);
    }
    let end = memory.known;
    assert(given_up(path, mountinfo, existing).known == end);
    assert(d1 matches Some(d) ==> !end.contains(d));
    assert(d2 matches Some(d) ==> !end.contains(d));
    assert(d3 matches Some(d) ==> !end.contains(d));
    let again = removed("cpu"@, path, mountinfo, end);
    assert(again.plan.len() == 0 && again.known == end);
    let again2 = removed("cpuset"@, path, mountinfo, end);
    assert(again2.plan.len() == 0 && again2.known == end);
    let again3 = removed("memory"@, path, mountinfo, end);
    assert(again3.plan.len() == 0 && again3.known == end);
}

/// Whether `known` names exactly the directories of `host`.
pub open spec fn names_dirs_of(known: Seq<Seq<char>>, host: Host) -> bool {
    forall|d: Seq<char>| known.contains(d) <==> host.dirs.contains(d)
}

/// What one controller plans for its limit can be performed, and leaves the
/// directories that it names as known.
proof fn lemma_configured_fits(
    host: Host,
    subsystem: Seq<char>,
    control_file: Seq<char>,
    limit: Seq<char>,
    path: Seq<char>,
    mountinfo: Seq<char>,
    known: Seq<Seq<char>>,
)
    requires
        names_dirs_of(known, host),
    ensures
        ({
            let out = configured(subsystem, control_file, limit, path, mountinfo, known);
            &&& performable(host, steps_of(out.plan))
            &&& names_dirs_of(out.known, after(host, steps_of(out.plan)))
            &&& after(host, steps_of(out.plan)).mounts == host.mounts
        }),
{
    let out = configured(subsystem, control_file, limit, path, mountinfo, known);
    let steps = steps_of(out.plan);
    if steps.len() == 0 {
        assert(out.known == known);
    } else if steps.len() == 1 {
        assert(steps =~= seq![steps[0]]);
        lemma_after_one(host, steps[0]);
        if steps[0] is MakeDir {
            let dir = steps[0]->MakeDir_path;
            assert(out.known == known.push(dir));
            assert forall|d: Seq<char>| out.known.contains(d) <==> host.dirs.insert(
                dir,
            ).contains(d) by {
                lemma_push_contains(known, dir, d);
            }
        }
    } else {
        assert(steps =~= seq![steps[0]] + seq![steps[1]]);
        lemma_after_first(host, steps[0], seq![steps[1]]);
        lemma_after_one(after(host, seq![steps[0]]), steps[1]);
        lemma_after_one(host, steps[0]);
        let dir = steps[0]->MakeDir_path;
        assert(out.known == known.push(dir));
        assert forall|d: Seq<char>| out.known.contains(d) <==> host.dirs.insert(dir).contains(
            d,
        ) by {
            lemma_push_contains(known, dir, d);
        }
    }
}

/// A list with one more text holds the texts of the list and that text.
proof fn lemma_push_contains(list: Seq<Seq<char>>, item: Seq<char>, d: Seq<char>)
    ensures
        list.push(item).contains(d) <==> list.contains(d) || d == item,
{
    let more = list.push(item);
    if more.contains(d) {
        let i = choose|i: int| 0 <= i < more.len() && more[i] == d;
        if i < list.len() {
            assert(list[i] == d);
        }
    }
    if list.contains(d) {
        let i = choose|i: int| 0 <= i < list.len() && list[i] == d;
        assert(more[i] == d);
    }
    if d == item {
        assert(more[list.len() as int] == d);
    }
}

/// The limits can be set as they are planned.
///
/// Where the directories given as existing are the directories of the host,
/// the steps of the plan can be performed in their order: no directory is
/// made that is there already, be it from before or from an earlier step of
/// the plan. The directories known at the end of the planning are those of
/// the host after the plan.
pub proof fn lemma_limits_fit_the_host(
    host: Host,
    path: Seq<char>,
    limits: Limits,
    mountinfo: Seq<char>,
    existing: Seq<Seq<char>>,
)
    requires
        names_dirs_of(existing, host),
    ensures
        ({
            let out = limited(path, limits, mountinfo, existing);
            &&& performable(host, steps_of(out.plan))
            &&& names_dirs_of(out.known, after(host, steps_of(out.plan)))
        }),
{
    let cpu = limited_by(CpuSubSystem {  }, path, limits, mountinfo, existing);
    lemma_configured_fits(
        host,
        "cpu"@,
        "cpu.shares"@,
        limits.cpu_share,
        path,
        mountinfo,
        existing,
    );
    let h1 = after(host, steps_of(cpu.plan));
    let cpuset = limited_by(CpusetSubSystem {  }, path, limits, mountinfo, cpu.known);
    lemma_configured_fits(
        h1,
        "cpuset"@,
        "cpuset.cpus"@,
        limits.cpu_set,
        path,
        mountinfo,
        cpu.known,
    );
    let h2 = after(h1, steps_of(cpuset.plan));
    let memory = limited_by(MemorySubSystem {  }, path, limits, mountinfo, cpuset.known);
    lemma_configured_fits(
        h2,
        "memory"@,
        "memory.limit_in_bytes"@,
        limits.memory_limit,
        path,
        mountinfo,
        cpuset.known,
    );
    if cpu.error is None {
        let rest = and_then(cpuset, memory);
        if cpuset.error is None {
            lemma_steps_of_concat(cpuset.plan, memory.plan);
            lemma_after_concat(h1, steps_of(cpuset.plan), steps_of(memory.plan));
        }
        lemma_steps_of_concat(cpu.plan, rest.plan);
        lemma_after_concat(host, steps_of(cpu.plan), steps_of(rest.plan));
    }
}

/// What one controller plans to give its group up can be performed, and
/// leaves the directories that it names as known.
proof fn lemma_removed_fits(
    host: Host,
    subsystem: Seq<char>,
    path: Seq<char>,
    mountinfo: Seq<char>,
    known: Seq<Seq<char>>,
)
    requires
        names_dirs_of(known, host),
        group_path(subsystem, path, mountinfo) matches Some(dir) ==> !mounted_within(host, dir),
    ensures
        ({
            let out = removed(subsystem, path, mountinfo, known);
            &&& performable(host, steps_of(out.plan))
            &&& names_dirs_of(out.known, after(host, steps_of(out.plan)))
            &&& after(host, steps_of(out.plan)).mounts == host.mounts
        }),
{
    let out = removed(subsystem, path, mountinfo, known);
    let steps = steps_of(out.plan);
    if steps.len() == 1 {
        assert(steps =~= seq![steps[0]]);
        lemma_after_one(host, steps[0]);
        let dir = steps[0]->RemoveDir_path;
        lemma_without_lacks(known, dir);
    }
}

/// The group can be given up as it is planned.
///
/// Where the directories given as existing are the directories of the host,
/// and nothing is mounted on or below the directories of the group, the
/// steps of the plan can be performed in their order: only directories that
/// are there are removed, each once. The directories known at the end of the
/// planning are those of the host after the plan, and none of the group is
/// among them.
pub proof fn lemma_removal_fits_the_host(
    host: Host,
    path: Seq<char>,
    mountinfo: Seq<char>,
    existing: Seq<Seq<char>>,
)
    requires
        names_dirs_of(existing, host),
        group_path("cpu"@, path, mountinfo) matches Some(dir) ==> !mounted_within(host, dir),
        group_path("cpuset"@, path, mountinfo) matches Some(dir) ==> !mounted_within(host, dir),
        group_path("memory"@, path, mountinfo) matches Some(dir) ==> !mounted_within(host, dir),
    ensures
        ({
            let out = given_up(path, mountinfo, existing);
            let end = after(host, steps_of(out.plan));
            &&& performable(host, steps_of(out.plan))
            &&& names_dirs_of(out.known, end)
            &&& group_path("cpu"@, path, mountinfo) matches Some(dir) ==> !end.dirs.contains(dir)
            &&& group_path("cpuset"@, path, mountinfo) matches Some(dir) ==> !end.dirs.contains(
                dir,
            )
            &&& group_path("memory"@, path, mountinfo) matches Some(dir) ==> !end.dirs.contains(
                dir,
            )
        }),
{
    let cpu = removed("cpu"@, path, mountinfo, existing);
    lemma_removed_fits(host, "cpu"@, path, mountinfo, existing);
    let h1 = after(host, steps_of(cpu.plan));
    assert(h1.mounts == host.mounts);
    let cpuset = removed("cpuset"@, path, mountinfo, cpu.known);
    assert(group_path("cpuset"@, path, mountinfo) matches Some(dir) ==> !mounted_within(
        h1,
        dir,
    ));
    lemma_removed_fits(h1, "cpuset"@, path, mountinfo, cpu.known);
    let h2 = after(h1, steps_of(cpuset.plan));
    let memory = removed("memory"@, path, mountinfo, cpuset.known);
    assert(group_path("memory"@, path, mountinfo) matches Some(dir) ==> !mounted_within(
        h2,
        dir,
    ));
    lemma_removed_fits(h2, "memory"@, path, mountinfo, cpuset.known);
    let rest = and_then(cpuset, memory);
    lemma_steps_of_concat(cpuset.plan, memory.plan);
    lemma_after_concat(h1, steps_of(cpuset.plan), steps_of(memory.plan));
    lemma_steps_of_concat(cpu.plan, rest.plan);
    lemma_after_concat(host, steps_of(cpu.plan), steps_of(rest.plan));
    lemma_destroy_is_idempotent(path, mountinfo, existing);
    let end = memory.known;
    let d1 = group_path("cpu"@, path, mountinfo);
    let d2 = group_path("cpuset"@, path, mountinfo);
    let d3 = group_path("memory"@, path, mountinfo);
    if d1 is Some {
        lemma_without_lacks(existing, d1->0);
        lemma_without_lacks(cpu.known, d1->0);
        lemma_without_lacks(cpuset.known, d1->0);
    }
    if d2 is Some {
        lemma_without_lacks(cpu.known, d2->0);
        lemma_without_lacks(cpuset.known, d2->0);
    }
    if d3 is Some {
        lemma_without_lacks(cpuset.known, d3->0);
    }
}

} // verus!
