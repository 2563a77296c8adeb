use mydocker::cgroup::CgroupManager;
use mydocker::plan::{OnFailure, Planned, Step};
use mydocker::subsystem::{
    find_cgroup_mountpoint, get_cgroup_path, CgroupDir, CgroupError, CpuSubSystem,
    CpusetSubSystem, MemorySubSystem, ResourceConfig, Subsystem,
};

const MOUNTINFO: &str = "\
22 28 0:21 / /sys rw,nosuid,nodev,noexec,relatime shared:7 - sysfs sysfs rw
35 25 0:30 / /sys/fs/cgroup/cpu,cpuacct rw,nosuid,nodev,noexec,relatime shared:16 - cgroup cgroup rw,cpu,cpuacct
36 25 0:31 / /sys/fs/cgroup/cpuset rw,nosuid,nodev,noexec,relatime shared:17 - cgroup cgroup rw,cpuset
37 25 0:32 / /sys/fs/cgroup/memory rw,nosuid,nodev,noexec,relatime shared:18 - cgroup cgroup rw,memory
";

const SHARED: &str = "\
35 25 0:30 / /sys/fs/cgroup/all rw,relatime shared:16 - cgroup cgroup rw,cpu,cpuset,memory
";

fn list(items: &[&str]) -> Vec<String> {
    items.iter().map(|s| s.to_string()).collect()
}

fn limits(memory: &str, share: &str, set: &str) -> ResourceConfig {
    ResourceConfig {
        memory_limit: memory.to_string(),
        cpu_share: share.to_string(),
        cpu_set: set.to_string(),
    }
}

fn vital(step: Step) -> Planned {
    Planned { step, on_failure: OnFailure::Abort }
}

fn make(path: &str) -> Planned {
    vital(Step::MakeDir { path: path.to_string() })
}

fn write(path: &str, data: &str) -> Planned {
    vital(Step::WriteFile { path: path.to_string(), mode: 0o644, data: data.to_string() })
}

fn add(path: &str, data: &str) -> Planned {
    vital(Step::AppendFile { path: path.to_string(), mode: 0o644, data: data.to_string() })
}

fn remove(path: &str) -> Planned {
    vital(Step::RemoveDir { path: path.to_string() })
}

#[test]
fn controllers_have_their_names() {
    assert_eq!(CpuSubSystem {}.name(), "cpu");
    assert_eq!(CpusetSubSystem {}.name(), "cpuset");
    assert_eq!(MemorySubSystem {}.name(), "memory");
    assert_eq!(CpuSubSystem {}.control(), "cpu.shares");
    assert_eq!(CpusetSubSystem {}.control(), "cpuset.cpus");
    assert_eq!(MemorySubSystem {}.control(), "memory.limit_in_bytes");
    let res = limits("100m", "512", "0-1");
    assert_eq!(CpuSubSystem {}.limit(&res), "512");
    assert_eq!(CpusetSubSystem {}.limit(&res), "0-1");
    assert_eq!(MemorySubSystem {}.limit(&res), "100m");
}

#[test]
fn mount_point_is_fifth_field_of_first_matching_line() {
    assert_eq!(find_cgroup_mountpoint("cpu", MOUNTINFO), Ok("/sys/fs/cgroup/cpu,cpuacct".to_string()));
    assert_eq!(find_cgroup_mountpoint("cpuset", MOUNTINFO), Ok("/sys/fs/cgroup/cpuset".to_string()));
    assert_eq!(find_cgroup_mountpoint("memory", MOUNTINFO), Ok("/sys/fs/cgroup/memory".to_string()));
    assert_eq!(find_cgroup_mountpoint("cpuacct", MOUNTINFO), Ok("/sys/fs/cgroup/cpu,cpuacct".to_string()));
    let twice = "1 2 3 / /first rw - cgroup cgroup rw,cpu\n1 2 3 / /second rw - cgroup cgroup rw,cpu\n";
    assert_eq!(find_cgroup_mountpoint("cpu", twice), Ok("/first".to_string()));
}

#[test]
fn mount_point_needs_the_name_among_the_options() {
    assert_eq!(
        find_cgroup_mountpoint("blkio", MOUNTINFO),
        Err(CgroupError::NotMounted { subsystem: "blkio".to_string() })
    );
    assert_eq!(
        find_cgroup_mountpoint("cpu", ""),
        Err(CgroupError::NotMounted { subsystem: "cpu".to_string() })
    );
    // part of a name is no name
    assert_eq!(
        find_cgroup_mountpoint("cp", MOUNTINFO),
        Err(CgroupError::NotMounted { subsystem: "cp".to_string() })
    );
    // a line with fewer than five fields gives no mount point
    assert_eq!(
        find_cgroup_mountpoint("cpu", "a b c rw,cpu\n"),
        Err(CgroupError::NotMounted { subsystem: "cpu".to_string() })
    );
    // the name has to stand in the last field
    assert_eq!(
        find_cgroup_mountpoint("cpu", "1 2 3 / /x rw,cpu - cgroup cgroup rw\n"),
        Err(CgroupError::NotMounted { subsystem: "cpu".to_string() })
    );
}

#[test]
fn group_directory_is_created_on_request_only() {
    let none = list(&[]);
    let there = list(&["/sys/fs/cgroup/memory/box"]);
    assert_eq!(
        get_cgroup_path("memory", "box", true, MOUNTINFO, &none),
        Ok(CgroupDir { path: "/sys/fs/cgroup/memory/box".to_string(), create: true })
    );
    assert_eq!(
        get_cgroup_path("memory", "box", true, MOUNTINFO, &there),
        Ok(CgroupDir { path: "/sys/fs/cgroup/memory/box".to_string(), create: false })
    );
    assert_eq!(
        get_cgroup_path("memory", "box", false, MOUNTINFO, &there),
        Ok(CgroupDir { path: "/sys/fs/cgroup/memory/box".to_string(), create: false })
    );
    assert_eq!(
        get_cgroup_path("memory", "box", false, MOUNTINFO, &none),
        Err(CgroupError::NotFound { path: "/sys/fs/cgroup/memory/box".to_string() })
    );
    assert_eq!(
        get_cgroup_path("blkio", "box", true, MOUNTINFO, &none),
        Err(CgroupError::NotMounted { subsystem: "blkio".to_string() })
    );
}

#[test]
fn errors_have_messages() {
    assert_eq!(
        CgroupError::NotMounted { subsystem: "cpu".to_string() }.message(),
        "cgroup subsystem is not mounted: cpu"
    );
    assert_eq!(
        CgroupError::NotFound { path: "/x".to_string() }.message(),
        "error create cgroup /x"
    );
}

#[test]
fn only_cpu_share_writes_only_cpu_shares() {
    let manager = CgroupManager::new_cgroup_manager("box");
    assert_eq!(manager.path, "box");
    let planned = manager.set(&limits("", "512", ""), MOUNTINFO, &list(&[]));
    assert_eq!(planned.error, None);
    assert_eq!(
        planned.plan.steps,
        vec![
            make("/sys/fs/cgroup/cpu,cpuacct/box"),
            write("/sys/fs/cgroup/cpu,cpuacct/box/cpu.shares", "512"),
            make("/sys/fs/cgroup/cpuset/box"),
            make("/sys/fs/cgroup/memory/box"),
        ]
    );
    let writes: Vec<&Planned> =
        planned.plan.steps.iter().filter(|p| matches!(p.step, Step::WriteFile { .. })).collect();
    assert_eq!(writes, vec![&write("/sys/fs/cgroup/cpu,cpuacct/box/cpu.shares", "512")]);
}

#[test]
fn every_limit_goes_to_its_controller() {
    let manager = CgroupManager::new_cgroup_manager("box");
    let existing = list(&["/sys/fs/cgroup/cpuset/box"]);
    let planned = manager.set(&limits("100m", "512", "0-1"), MOUNTINFO, &existing);
    assert_eq!(planned.error, None);
    assert_eq!(
        planned.plan.steps,
        vec![
            make("/sys/fs/cgroup/cpu,cpuacct/box"),
            write("/sys/fs/cgroup/cpu,cpuacct/box/cpu.shares", "512"),
            write("/sys/fs/cgroup/cpuset/box/cpuset.cpus", "0-1"),
            make("/sys/fs/cgroup/memory/box"),
            write("/sys/fs/cgroup/memory/box/memory.limit_in_bytes", "100m"),
        ]
    );
}

#[test]
fn shared_directory_is_made_once() {
    let manager = CgroupManager::new_cgroup_manager("box");
    let planned = manager.set(&limits("100m", "512", ""), SHARED, &list(&[]));
    assert_eq!(planned.error, None);
    assert_eq!(
        planned.plan.steps,
        vec![
            make("/sys/fs/cgroup/all/box"),
            write("/sys/fs/cgroup/all/box/cpu.shares", "512"),
            write("/sys/fs/cgroup/all/box/memory.limit_in_bytes", "100m"),
        ]
    );
    let gone = manager.destroy(SHARED, &list(&["/sys/fs/cgroup/all/box"]));
    assert_eq!(gone.plan.steps, vec![remove("/sys/fs/cgroup/all/box")]);
}

#[test]
fn missing_controller_ends_the_planning() {
    let manager = CgroupManager::new_cgroup_manager("box");
    let only_cpu = "35 25 0:30 / /sys/fs/cgroup/cpu rw - cgroup cgroup rw,cpu\n";
    let planned = manager.set(&limits("100m", "512", "0-1"), only_cpu, &list(&[]));
    assert_eq!(planned.error, Some(CgroupError::NotMounted { subsystem: "cpuset".to_string() }));
    // what was planned before the error stays
    assert_eq!(
        planned.plan.steps,
        vec![make("/sys/fs/cgroup/cpu/box"), write("/sys/fs/cgroup/cpu/box/cpu.shares", "512")]
    );
    let nothing = manager.set(&limits("100m", "512", "0-1"), "", &list(&[]));
    assert_eq!(nothing.error, Some(CgroupError::NotMounted { subsystem: "cpu".to_string() }));
    assert_eq!(nothing.plan.steps, vec![]);
}

#[test]
fn apply_adds_the_pid_to_every_tasks_file() {
    let manager = CgroupManager::new_cgroup_manager("box");
    let existing = list(&[
        "/sys/fs/cgroup/cpu,cpuacct/box",
        "/sys/fs/cgroup/cpuset/box",
        "/sys/fs/cgroup/memory/box",
    ]);
    let planned = manager.apply(4711, MOUNTINFO, &existing);
    assert_eq!(planned.error, None);
    assert_eq!(
        planned.plan.steps,
        vec![
            add("/sys/fs/cgroup/cpu,cpuacct/box/tasks", "4711"),
            add("/sys/fs/cgroup/cpuset/box/tasks", "4711"),
            add("/sys/fs/cgroup/memory/box/tasks", "4711"),
        ]
    );
}

#[test]
fn apply_needs_the_group() {
    let manager = CgroupManager::new_cgroup_manager("box");
    let existing = list(&["/sys/fs/cgroup/cpu,cpuacct/box"]);
    let planned = manager.apply(1, MOUNTINFO, &existing);
    assert_eq!(
        planned.error,
        Some(CgroupError::NotFound { path: "/sys/fs/cgroup/cpuset/box".to_string() })
    );
    assert_eq!(planned.plan.steps, vec![add("/sys/fs/cgroup/cpu,cpuacct/box/tasks", "1")]);
}

#[test]
fn destroy_removes_what_is_there() {
    let manager = CgroupManager::new_cgroup_manager("box");
    let existing = list(&["/sys/fs/cgroup/cpu,cpuacct/box", "/sys/fs/cgroup/memory/box", "/other"]);
    let planned = manager.destroy(MOUNTINFO, &existing);
    assert_eq!(planned.error, None);
    assert_eq!(
        planned.plan.steps,
        vec![remove("/sys/fs/cgroup/cpu,cpuacct/box"), remove("/sys/fs/cgroup/memory/box")]
    );
}

#[test]
fn destroy_of_an_absent_group_is_no_error() {
    let manager = CgroupManager::new_cgroup_manager("box");
    let planned = manager.destroy(MOUNTINFO, &list(&[]));
    assert_eq!(planned.error, None);
    assert_eq!(planned.plan.steps, vec![]);
    let unmounted = manager.destroy("", &list(&["/sys/fs/cgroup/cpu,cpuacct/box"]));
    assert_eq!(unmounted.error, None);
    assert_eq!(unmounted.plan.steps, vec![]);
}

#[test]
fn controller_alone() {
    let mut known = list(&[]);
    let planned = CpuSubSystem {}.set("box", &limits("", "", ""), MOUNTINFO, &mut known);
    assert_eq!(planned.error, None);
    assert_eq!(planned.plan.steps, vec![make("/sys/fs/cgroup/cpu,cpuacct/box")]);
    assert_eq!(known, list(&["/sys/fs/cgroup/cpu,cpuacct/box"]));
    let entered = MemorySubSystem {}.apply("box", -1, MOUNTINFO, &list(&["/sys/fs/cgroup/memory/box"]));
    assert_eq!(entered.plan.steps, vec![add("/sys/fs/cgroup/memory/box/tasks", "-1")]);
    let gone = CpuSubSystem {}.remove("box", MOUNTINFO, &mut known);
    assert_eq!(gone.plan.steps, vec![remove("/sys/fs/cgroup/cpu,cpuacct/box")]);
    assert_eq!(known, list(&[]));
    let again = CpuSubSystem {}.remove("box", MOUNTINFO, &mut known);
    assert_eq!(again.plan.steps, vec![]);
    assert_eq!(again.error, None);
}

#[test]
fn directories_of_the_group() {
    let manager = CgroupManager::new_cgroup_manager("box");
    assert_eq!(
        manager.directories(MOUNTINFO),
        list(&["/sys/fs/cgroup/cpu,cpuacct/box", "/sys/fs/cgroup/cpuset/box", "/sys/fs/cgroup/memory/box"])
    );
    assert_eq!(manager.directories(SHARED), list(&["/sys/fs/cgroup/all/box"; 3]));
    assert_eq!(manager.directories(""), list(&[]));
}

#[test]
fn apply_never_replaces_what_tasks_holds() {
    let manager = CgroupManager::new_cgroup_manager("box");
    let planned = manager.apply(42, SHARED, &list(&["/sys/fs/cgroup/all/box"]));
    assert_eq!(planned.error, None);
    assert_eq!(planned.plan.steps, vec![add("/sys/fs/cgroup/all/box/tasks", "42"); 3]);
    assert!(planned.plan.steps.iter().all(|p| !matches!(p.step, Step::WriteFile { .. })));
}
