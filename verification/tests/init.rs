use mydocker::init::{
    env_path_find, init_process, path_candidates, path_find, read_user_command, root_pivot,
    run_container_init_process, setup_mount, InitAction, InitError, InitEvent, InitStage,
    InitState, DEFAULT_PATH,
};
use mydocker::plan::{
    OnFailure, Planned, Step, MS_BIND, MS_NODEV, MS_NOEXEC, MS_NOSUID, MS_REC, MS_STRICTATIME,
};

fn list(items: &[&str]) -> Vec<String> {
    items.iter().map(|s| s.to_string()).collect()
}

fn vital(step: Step) -> Planned {
    Planned { step, on_failure: OnFailure::Abort }
}

#[test]
fn path_is_searched_in_order() {
    assert_eq!(path_find("x", "/a:/b", &list(&["/b/x"])), Some("/b/x".to_string()));
    assert_eq!(path_find("x", "/a:/b", &list(&["/b/x", "/a/x"])), Some("/a/x".to_string()));
    assert_eq!(path_find("x", "/a:/b", &list(&[])), None);
    assert_eq!(path_find("x", "/a:/b", &list(&["/c/x"])), None);
}

#[test]
fn absolute_command_is_taken_as_it_is() {
    assert_eq!(path_find("/bin/x", "/a:/b", &list(&[])), Some("/bin/x".to_string()));
    assert_eq!(path_find("/bin/x", "", &list(&["/a/x"])), Some("/bin/x".to_string()));
    assert_eq!(env_path_find("/bin/x", None, &list(&[])), Some("/bin/x".to_string()));
}

#[test]
fn candidates_follow_the_path() {
    assert_eq!(path_candidates("x", "/a:/b/:"), list(&["/a/x", "/b/x", "x"]));
    assert_eq!(path_candidates("sub/x", "/a"), list(&["/a/sub/x"]));
    assert_eq!(path_candidates("x", ""), list(&["x"]));
}

#[test]
fn missing_path_falls_back_to_default() {
    assert_eq!(DEFAULT_PATH, "/sbin:/bin:/usr/sbin:/usr/bin:/usr/local/sbin:/usr/local/bin");
    assert_eq!(env_path_find("sh", None, &list(&["/bin/sh", "/usr/bin/sh"])), Some("/bin/sh".to_string()));
    assert_eq!(env_path_find("sh", Some("/opt"), &list(&["/bin/sh", "/opt/sh"])), Some("/opt/sh".to_string()));
    assert_eq!(env_path_find("sh", Some("/opt"), &list(&["/bin/sh"])), None);
}

#[test]
fn command_is_split_into_words() {
    assert_eq!(read_user_command(b"/bin/sh -c ls"), Ok(list(&["/bin/sh", "-c", "ls"])));
    assert_eq!(read_user_command(b"  top\n"), Ok(list(&["top"])));
    assert_eq!(read_user_command("caf\u{e9} \u{2603}".as_bytes()), Ok(list(&["caf\u{e9}", "\u{2603}"])));
}

#[test]
fn command_must_be_utf8_and_hold_a_word() {
    assert_eq!(read_user_command(&[0xff, 0xfe]), Err(InitError::NotUtf8));
    assert_eq!(read_user_command(&[b'a', 0xc3]), Err(InitError::NotUtf8));
    assert_eq!(read_user_command(b""), Err(InitError::NoCommand));
    assert_eq!(read_user_command(b" \t\n"), Err(InitError::NoCommand));
}

#[test]
fn root_pivot_steps() {
    let plan = root_pivot("/root/mnt/c1");
    assert_eq!(
        plan.steps,
        vec![
            vital(Step::Mount {
                source: "/root/mnt/c1".to_string(),
                target: "/root/mnt/c1".to_string(),
                fstype: "bind".to_string(),
                flags: MS_BIND | MS_REC,
                options: None,
            }),
            vital(Step::CreateDir { path: "/root/mnt/c1/.pivot_root".to_string(), mode: 0o777 }),
            vital(Step::PivotRoot {
                new_root: "/root/mnt/c1".to_string(),
                put_old: "/root/mnt/c1/.pivot_root".to_string(),
            }),
            vital(Step::ChangeDir { path: "/".to_string() }),
            vital(Step::Detach { target: "/.pivot_root".to_string() }),
            vital(Step::RemoveTree { path: "/.pivot_root".to_string() }),
        ]
    );
}

#[test]
fn staging_directory_keeps_its_name_under_the_new_root() {
    for root in ["/root/mnt/c1", "/root/mnt/c1/", "/r"] {
        let plan = root_pivot(root);
        let staged = match &plan.steps[2].step {
            Step::PivotRoot { new_root, put_old } => {
                assert_eq!(new_root, root);
                put_old.clone()
            }
            other => panic!("unexpected step {:?}", other),
        };
        assert_eq!(plan.steps[1].step, Step::CreateDir { path: staged.clone(), mode: 0o777 });
        let below = staged.strip_prefix(root.trim_end_matches('/')).expect("below the root");
        assert_eq!(below, "/.pivot_root");
        assert_eq!(plan.steps[4].step, Step::Detach { target: below.to_string() });
        assert_eq!(plan.steps[5].step, Step::RemoveTree { path: below.to_string() });
    }
}

#[test]
fn mount_flags_have_their_values() {
    assert_eq!(MS_NOSUID, 2);
    assert_eq!(MS_NODEV, 4);
    assert_eq!(MS_NOEXEC, 8);
    assert_eq!(MS_BIND, 4096);
    assert_eq!(MS_REC, 16384);
    assert_eq!(MS_STRICTATIME, 1 << 24);
}

#[test]
fn setup_mount_adds_proc_and_dev() {
    let plan = setup_mount(Some("/root/mnt/c1")).expect("a plan");
    assert_eq!(plan.len(), 8);
    assert_eq!(plan.steps[..6], root_pivot("/root/mnt/c1").steps[..]);
    assert_eq!(
        plan.steps[6],
        vital(Step::Mount {
            source: "proc".to_string(),
            target: "/proc".to_string(),
            fstype: "proc".to_string(),
            flags: 14,
            options: None,
        })
    );
    assert_eq!(
        plan.steps[7],
        vital(Step::Mount {
            source: "tmpfs".to_string(),
            target: "/dev".to_string(),
            fstype: "tmpfs".to_string(),
            flags: 2 | (1 << 24),
            options: Some("mode=755".to_string()),
        })
    );
}

#[test]
fn setup_mount_needs_the_working_directory() {
    assert_eq!(setup_mount(None), Err(InitError::NoWorkingDirectory));
}

#[test]
fn failed_step_ends_the_mounts() {
    let plan = setup_mount(Some("/r")).expect("a plan");
    for at in 0..8 {
        // after a failure nothing more is performed: neither /proc nor /dev is mounted
        assert_eq!(plan.next(at, false), None);
    }
    for at in 0..7 {
        assert_eq!(plan.next(at, true), Some(at + 1));
    }
    assert_eq!(plan.next(7, true), None);
}

fn drive(events: Vec<InitEvent>, cwd: Option<&str>, path: Option<&str>) -> (InitState, Vec<InitAction>) {
    let mut state = InitState::new();
    let mut actions = Vec::new();
    for event in events {
        let (next, action) = run_container_init_process(state, event, cwd, path);
        state = next;
        actions.push(action);
    }
    (state, actions)
}

#[test]
fn init_runs_a_command_found_on_the_path() {
    let (state, actions) = drive(
        vec![
            InitEvent::Begin,
            InitEvent::Command(b"sh -c ls".to_vec()),
            InitEvent::Performed,
            InitEvent::Existing(list(&["/bin/sh"])),
        ],
        Some("/root/mnt/c1"),
        Some("/usr/bin:/bin"),
    );
    assert_eq!(state.stage, InitStage::Executing);
    assert_eq!(
        actions,
        vec![
            InitAction::ReadCommand,
            InitAction::Perform(setup_mount(Some("/root/mnt/c1")).expect("a plan")),
            InitAction::Probe(list(&["/usr/bin/sh", "/bin/sh"])),
            InitAction::Exec { program: "/bin/sh".to_string(), args: list(&["-c", "ls"]) },
        ]
    );
}

#[test]
fn init_runs_an_absolute_command_without_search() {
    let (state, actions) = drive(
        vec![InitEvent::Begin, InitEvent::Command(b"/bin/top".to_vec()), InitEvent::Performed],
        Some("/r"),
        None,
    );
    assert_eq!(state.stage, InitStage::Executing);
    assert_eq!(state.command, list(&["/bin/top"]));
    assert_eq!(actions[1], InitAction::Perform(setup_mount(Some("/r")).expect("a plan")));
    assert_eq!(actions[2], InitAction::Exec { program: "/bin/top".to_string(), args: list(&[]) });
}

#[test]
fn init_ends_on_every_failure() {
    let (state, actions) = drive(vec![InitEvent::Begin, InitEvent::Unreadable], None, None);
    assert_eq!(state.stage, InitStage::Exited);
    assert_eq!(actions[1], InitAction::Exit(InitError::PipeUnreadable));

    let (_, actions) = drive(vec![InitEvent::Begin, InitEvent::Command(vec![0xff])], None, None);
    assert_eq!(actions[1], InitAction::Exit(InitError::NotUtf8));

    let (_, actions) = drive(vec![InitEvent::Begin, InitEvent::Command(vec![])], None, None);
    assert_eq!(actions[1], InitAction::Exit(InitError::NoCommand));

    let (_, actions) = drive(
        vec![
            InitEvent::Begin,
            InitEvent::Command(b"nope".to_vec()),
            InitEvent::Performed,
            InitEvent::Existing(list(&[])),
        ],
        Some("/r"),
        Some("/bin"),
    );
    assert_eq!(actions[2], InitAction::Probe(list(&["/bin/nope"])));
    assert_eq!(actions[3], InitAction::Exit(InitError::NotFound { program: "nope".to_string() }));

    let (state, actions) = drive(
        vec![
            InitEvent::Begin,
            InitEvent::Command(b"/bin/top".to_vec()),
            InitEvent::Performed,
            InitEvent::ExecFailed,
            InitEvent::Begin,
        ],
        Some("/r"),
        None,
    );
    assert_eq!(actions[3], InitAction::Exit(InitError::ExecFailed { program: "/bin/top".to_string() }));
    assert_eq!(actions[4], InitAction::Exit(InitError::OutOfTurn));
    assert_eq!(state.stage, InitStage::Exited);
}

#[test]
fn init_ends_when_a_mount_step_fails() {
    let (state, actions) = drive(
        vec![InitEvent::Begin, InitEvent::Command(b"/bin/top".to_vec()), InitEvent::PlanFailed],
        Some("/r"),
        None,
    );
    assert_eq!(state.stage, InitStage::Exited);
    assert_eq!(actions[2], InitAction::Exit(InitError::MountFailed));
    assert!(actions.iter().all(|a| !matches!(a, InitAction::Exec { .. } | InitAction::Probe(_))));
}

#[test]
fn init_ends_without_working_directory() {
    let (state, actions) =
        drive(vec![InitEvent::Begin, InitEvent::Command(b"/bin/top".to_vec())], None, None);
    assert_eq!(state.stage, InitStage::Exited);
    assert_eq!(actions[1], InitAction::Exit(InitError::NoWorkingDirectory));
}

#[test]
fn init_refuses_reports_out_of_turn() {
    let (state, actions) = drive(vec![InitEvent::Performed], None, None);
    assert_eq!(state.stage, InitStage::Exited);
    assert_eq!(actions, vec![InitAction::Exit(InitError::OutOfTurn)]);
    let (_, actions) = drive(vec![InitEvent::Begin, InitEvent::Performed], None, None);
    assert_eq!(actions[1], InitAction::Exit(InitError::OutOfTurn));
}

#[test]
fn init_reports_its_end() {
    let ok = init_process(&Ok(()));
    assert_eq!(ok.message, "parent process init ok");
    assert_eq!(ok.code, 0);
    let failed = init_process(&Err(InitError::NotFound { program: "nope".to_string() }));
    assert_eq!(failed.message, "parent process init failed: command not found: nope");
    assert_eq!(failed.code, 1);
    assert_eq!(InitError::PipeUnreadable.message(), "Error reading from fd 3");
    assert_eq!(InitError::NotUtf8.message(), "command is not valid UTF-8");
    assert_eq!(InitError::NoCommand.message(), "Missing container command");
    assert_eq!(InitError::ExecFailed { program: "/x".to_string() }.message(), "failed in exec /x");
    assert_eq!(InitError::OutOfTurn.message(), "unexpected event");
    assert_eq!(InitError::NoWorkingDirectory.message(), "Get current location error");
    assert_eq!(InitError::MountFailed.message(), "mount setup failed");
}
