use mydocker::container::{
    create_mount_point, create_readonly_layer, create_write_layer, delete_mount_point,
    delete_volume, delete_work_space, delete_write_layer, mount_volume, new_work_space,
    parse_volume, tool_command, VolumeBinding, VolumeUse,
};
use mydocker::layout::{
    image_archive_of, image_dir_of, image_staging_dir_of, log_dir_of, log_file_of,
    mount_point_dir_of,
    union_option_of, volume_target_of, write_layer_dir_of,
};
use mydocker::plan::{OnFailure, Plan, Planned, Step};

fn vital(step: Step) -> Planned {
    Planned { step, on_failure: OnFailure::Abort }
}

fn lenient(step: Step, skip: usize) -> Planned {
    Planned { step, on_failure: OnFailure::Skip(skip) }
}

fn dir(path: &str, mode: u32) -> Step {
    Step::CreateDir { path: path.to_string(), mode }
}

fn binding(host: &str, inner: &str) -> VolumeBinding {
    VolumeBinding { host: host.to_string(), inner: inner.to_string() }
}

#[test]
fn layout_paths() {
    assert_eq!(image_dir_of("busybox"), "/root/busybox");
    assert_eq!(image_archive_of("busybox"), "/root/busybox.tar");
    assert_eq!(image_staging_dir_of("busybox"), "/root/busybox.unpacking");
    assert_eq!(write_layer_dir_of("c1"), "/root/writeLayer/c1");
    assert_eq!(mount_point_dir_of("c1"), "/root/mnt/c1");
    assert_eq!(volume_target_of("c1", "data"), "/root/mnt/c1/data");
    assert_eq!(volume_target_of("c1", "/data"), "/root/mnt/c1//data");
    assert_eq!(log_dir_of("c1"), "/var/run/mydocker/c1/");
    assert_eq!(log_file_of("c1"), "/var/run/mydocker/c1/container.log");
    assert_eq!(union_option_of("/w", "/i"), "dirs=/w:/i");
}

#[test]
fn volume_needs_two_filled_parts() {
    assert_eq!(parse_volume("/host:/data"), Some(binding("/host", "/data")));
    assert_eq!(parse_volume("a:b"), Some(binding("a", "b")));
    assert_eq!(parse_volume(""), None);
    assert_eq!(parse_volume("/host"), None);
    assert_eq!(parse_volume(":/data"), None);
    assert_eq!(parse_volume("/host:"), None);
    assert_eq!(parse_volume(":"), None);
    assert_eq!(parse_volume("a:b:c"), None);
}

#[test]
fn readonly_layer_is_unpacked_when_absent() {
    let plan = create_readonly_layer("busybox", false);
    assert_eq!(
        plan.steps,
        vec![
            vital(dir("/root/busybox.unpacking", 0o622)),
            vital(Step::Extract {
                archive: "/root/busybox.tar".to_string(),
                into: "/root/busybox.unpacking".to_string(),
            }),
            vital(Step::Rename {
                from: "/root/busybox.unpacking".to_string(),
                to: "/root/busybox".to_string(),
            }),
        ]
    );
}

#[test]
fn readonly_layer_is_reused_when_present() {
    assert_eq!(create_readonly_layer("busybox", true).steps, vec![]);
}

#[test]
fn write_layer_is_open_to_the_container() {
    assert_eq!(create_write_layer("c1").steps, vec![vital(dir("/root/writeLayer/c1", 0o777))]);
}

#[test]
fn mount_point_unions_write_layer_over_image() {
    assert_eq!(
        create_mount_point("c1", "busybox").steps,
        vec![
            vital(dir("/root/mnt/c1", 0o777)),
            vital(Step::MountUnion {
                upper: "/root/writeLayer/c1".to_string(),
                lower: "/root/busybox".to_string(),
                target: "/root/mnt/c1".to_string(),
            }),
        ]
    );
}

#[test]
fn volume_is_mounted_below_the_root() {
    assert_eq!(
        mount_volume(&binding("/host", "data"), "c1").steps,
        vec![
            vital(dir("/host", 0o777)),
            vital(dir("/root/mnt/c1/data", 0o777)),
            vital(Step::MountVolume {
                source: "/host".to_string(),
                target: "/root/mnt/c1/data".to_string(),
            }),
        ]
    );
}

#[test]
fn work_space_with_volume() {
    let space = new_work_space("/host:data", "busybox", "c1", false);
    assert_eq!(space.volume, VolumeUse::Bound(binding("/host", "data")));
    let kinds: Vec<&str> = space
        .plan
        .steps
        .iter()
        .map(|p| match p.step {
            Step::CreateDir { .. } => "dir",
            Step::Extract { .. } => "extract",
            Step::Rename { .. } => "rename",
            Step::MountUnion { .. } => "union",
            Step::MountVolume { .. } => "volume",
            _ => "other",
        })
        .collect();
    assert_eq!(
        kinds,
        vec!["dir", "extract", "rename", "dir", "dir", "union", "dir", "dir", "volume"]
    );
    assert!(space.plan.steps.iter().all(|p| p.on_failure == OnFailure::Abort));
}

#[test]
fn second_work_space_does_not_unpack_again() {
    let first = new_work_space("", "busybox", "c1", false);
    let unpackings =
        first.plan.steps.iter().filter(|p| matches!(p.step, Step::Extract { .. })).count();
    assert_eq!(unpackings, 1);
    let second = new_work_space("", "busybox", "c2", true);
    assert!(second.plan.steps.iter().all(|p| !matches!(p.step, Step::Extract { .. })));
    assert_eq!(second.plan.steps.len(), 3);
}

#[test]
fn malformed_volume_is_left_out() {
    let plain = new_work_space("", "busybox", "c1", true);
    assert_eq!(plain.volume, VolumeUse::Absent);
    for volume in ["/host", ":/data", "/host:", "a:b:c", ":"] {
        let space = new_work_space(volume, "busybox", "c1", true);
        assert_eq!(space.volume, VolumeUse::Malformed);
        assert_eq!(space.plan, plain.plan);
        assert!(space.plan.steps.iter().all(|p| !matches!(p.step, Step::MountVolume { .. })));
        assert_eq!(delete_work_space(volume, "c1"), delete_work_space("", "c1"));
    }
}

#[test]
fn teardown_reverses_the_building() {
    assert_eq!(
        delete_work_space("/host:data", "c1").steps,
        vec![
            lenient(Step::Unmount { target: "/root/mnt/c1/data".to_string() }, 0),
            lenient(Step::Unmount { target: "/root/mnt/c1".to_string() }, 1),
            lenient(Step::RemoveTree { path: "/root/mnt/c1".to_string() }, 0),
            lenient(Step::RemoveTree { path: "/root/writeLayer/c1".to_string() }, 0),
        ]
    );
}

#[test]
fn teardown_never_names_the_image_or_the_host_directory() {
    let plan = delete_work_space("/host:data", "c1");
    for planned in plan.steps.iter() {
        match &planned.step {
            Step::RemoveTree { path } => {
                assert!(path == "/root/mnt/c1" || path == "/root/writeLayer/c1");
            }
            Step::Unmount { .. } => {}
            other => panic!("unexpected step {:?}", other),
        }
    }
}

#[test]
fn teardown_parts() {
    assert_eq!(
        delete_volume(&binding("/host", "data"), "c1").steps,
        vec![lenient(Step::Unmount { target: "/root/mnt/c1/data".to_string() }, 0)]
    );
    assert_eq!(delete_mount_point("c1").steps.len(), 2);
    assert_eq!(
        delete_write_layer("c1").steps,
        vec![lenient(Step::RemoveTree { path: "/root/writeLayer/c1".to_string() }, 0)]
    );
}

#[test]
fn failed_unmount_keeps_the_root_directory() {
    let plan = delete_work_space("", "c1");
    // the unmount of the root fails: its removal is left out, the write layer is still removed
    assert_eq!(plan.next(0, false), Some(2));
    assert_eq!(plan.next(0, true), Some(1));
    assert_eq!(plan.next(1, false), Some(2));
    assert_eq!(plan.next(2, true), None);
    assert_eq!(plan.next(2, false), None);
}

#[test]
fn failed_building_step_ends_the_plan() {
    let space = new_work_space("", "busybox", "c1", false);
    assert_eq!(space.plan.len(), 6);
    for at in 0..6 {
        assert_eq!(space.plan.next(at, false), None);
    }
    assert_eq!(space.plan.next(0, true), Some(1));
    assert_eq!(space.plan.next(5, true), None);
}

#[test]
fn plan_walk() {
    let mut plan = Plan::new();
    assert_eq!(plan.len(), 0);
    plan.lenient(dir("/a", 0o755), 5);
    plan.vital(dir("/b", 0o755));
    let mut more = Plan::new();
    more.lenient(dir("/c", 0o755), 0);
    plan.append(more);
    assert_eq!(plan.len(), 3);
    assert_eq!(plan.first(), Some(0));
    assert_eq!(Plan::new().first(), None);
    assert_eq!(plan.step(1), Some(&vital(dir("/b", 0o755))));
    assert_eq!(plan.step(3), None);
    assert_eq!(plan.next(3, true), None);
    // a skip beyond the end ends the plan
    assert_eq!(plan.next(0, false), None);
    assert_eq!(plan.next(1, false), None);
    assert_eq!(plan.next(1, true), Some(2));
    assert_eq!(plan.next(2, false), None);
}

#[test]
fn tools_get_their_words() {
    let words = |step: Step| tool_command(&step);
    assert_eq!(
        words(Step::Extract { archive: "/root/b.tar".to_string(), into: "/root/b".to_string() }),
        Some(vec!["tar", "-xvf", "/root/b.tar", "-C", "/root/b"].into_iter().map(String::from).collect())
    );
    assert_eq!(
        words(Step::MountUnion {
            upper: "/root/writeLayer/c1".to_string(),
            lower: "/root/busybox".to_string(),
            target: "/root/mnt/c1".to_string(),
        }),
        Some(
            vec!["mount", "-t", "aufs", "-o", "dirs=/root/writeLayer/c1:/root/busybox", "none", "/root/mnt/c1"]
                .into_iter()
                .map(String::from)
                .collect()
        )
    );
    assert_eq!(
        words(Step::MountVolume { source: "/host".to_string(), target: "/root/mnt/c1/data".to_string() }),
        Some(
            vec!["mount", "--bind", "/host", "/root/mnt/c1/data"]
                .into_iter()
                .map(String::from)
                .collect()
        )
    );
    assert_eq!(
        words(Step::Unmount { target: "/root/mnt/c1".to_string() }),
        Some(vec!["unmount".to_string(), "/root/mnt/c1".to_string()])
    );
    assert_eq!(words(dir("/a", 0o755)), None);
    assert_eq!(words(Step::RemoveTree { path: "/a".to_string() }), None);
}

#[test]
fn layer_gets_its_name_only_after_the_unpacking() {
    let plan = create_readonly_layer("busybox", false);
    // nothing before the renaming names the layer's directory
    for planned in &plan.steps[..2] {
        match &planned.step {
            Step::CreateDir { path, .. } => assert_eq!(path, "/root/busybox.unpacking"),
            Step::Extract { into, .. } => assert_eq!(into, "/root/busybox.unpacking"),
            other => panic!("unexpected step {:?}", other),
        }
    }
    // a failed unpacking ends the plan before the renaming
    assert_eq!(plan.next(1, false), None);
    assert_eq!(plan.next(1, true), Some(2));
    // the layer is still absent, so the next launch unpacks again
    assert_eq!(create_readonly_layer("busybox", false), plan);
}
