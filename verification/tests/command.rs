use mydocker::container::{
    cmd_debug, cmd_err, cmd_err_text, cmd_show, container_info, new_parent_process, spawn_err,
    spawn_err_text, variable_of, StartError, VolumeUse, CONTROL_PIPE_FD, LOG_DIR_MODE,
};
use mydocker::plan::{OnFailure, Planned, Step};

fn pairs(items: &[(&str, &str)]) -> Vec<(String, String)> {
    items.iter().map(|(k, v)| (k.to_string(), v.to_string())).collect()
}

#[test]
fn parent_runs_itself_with_init() {
    let parent = new_parent_process(true, "c1", "", "busybox", &pairs(&[]), &pairs(&[]), true).expect("a start");
    assert_eq!(cmd_show(&parent.command), "\"exe\" \"init\"");
    assert_eq!(cmd_debug(&parent.command), "<Command \"/proc/self/exe\" \"init\"; environ: {}; work-dir=\"/root/mnt/c1\">");
    assert!(parent.log.is_none());
    assert_eq!(parent.work_space.volume, VolumeUse::Absent);
    assert_eq!(parent.work_space.plan.len(), 3);
}

#[test]
fn given_environment_overlays_inherited() {
    let parent = new_parent_process(
        true,
        "c1",
        "",
        "busybox",
        &pairs(&[("HOME", "/root")]),
        &pairs(&[("HOME", "/home/box")]),
        true,
    )
    .expect("a start");
    assert_eq!(
        cmd_debug(&parent.command),
        "<Command \"/proc/self/exe\" \"init\"; environ: {\"HOME\"=\"/home/box\",}; work-dir=\"/root/mnt/c1\">"
    );
    let inherited_only =
        new_parent_process(true, "c1", "", "busybox", &pairs(&[("A", "1")]), &pairs(&[]), true).expect("a start");
    assert_eq!(
        cmd_debug(&inherited_only.command),
        "<Command \"/proc/self/exe\" \"init\"; environ: {\"A\"=\"1\",}; work-dir=\"/root/mnt/c1\">"
    );
}

#[test]
fn environment_of_the_caller_does_not_leak() {
    // the command holds exactly what it was given, whatever this process has
    let parent = new_parent_process(true, "c1", "", "busybox", &pairs(&[]), &pairs(&[("K", "v")]), true).expect("a start");
    let text = cmd_debug(&parent.command);
    assert_eq!(text, "<Command \"/proc/self/exe\" \"init\"; environ: {\"K\"=\"v\",}; work-dir=\"/root/mnt/c1\">");
}

#[test]
fn output_goes_to_the_log_without_terminal() {
    let parent =
        new_parent_process(false, "c1", "/host:data", "busybox", &pairs(&[]), &pairs(&[]), false)
            .expect("a start");
    let log = parent.log.expect("a log");
    assert_eq!(log.file, "/var/run/mydocker/c1/container.log");
    assert_eq!(LOG_DIR_MODE, 0o622);
    assert_eq!(
        log.plan.steps,
        vec![Planned {
            step: Step::CreateDir { path: "/var/run/mydocker/c1/".to_string(), mode: 0o622 },
            on_failure: OnFailure::Abort,
        }]
    );
    assert_eq!(parent.work_space.plan.len(), 9);
    assert!(matches!(parent.work_space.volume, VolumeUse::Bound(_)));
}

#[test]
fn control_pipe_is_descriptor_three() {
    assert_eq!(CONTROL_PIPE_FD, 3);
}

#[test]
fn command_errors_name_the_command() {
    assert_eq!(cmd_err_text("<Command \"x\">", "exited with code 1"), "Error running <Command \"x\">: exited with code 1");
    let parent = new_parent_process(true, "c1", "", "busybox", &pairs(&[]), &pairs(&[]), true).expect("a start");
    assert_eq!(
        cmd_err(&parent.command, "boom"),
        "Error running <Command \"/proc/self/exe\" \"init\"; environ: {}; work-dir=\"/root/mnt/c1\">: boom"
    );
}

#[test]
fn container_info_holds_its_fields() {
    let info = container_info {
        pid: 42,
        id: 7,
        name: "web".to_string(),
        command: "sh".to_string(),
        create_time: "now".to_string(),
        status: "running".to_string(),
        volume: String::new(),
        port_mapping: vec![80, 8080],
    };
    assert_eq!(info.clone(), info);
    assert_eq!(info.pid, 42);
}

#[test]
fn spawn_errors_show_the_command_twice() {
    assert_eq!(spawn_err_text("\"x\"", "<Command \"/bin/x\">", "fork: 12"), "Command \"x\": fork: 12 (<Command \"/bin/x\">)");
    let parent = new_parent_process(true, "c1", "", "busybox", &pairs(&[]), &pairs(&[]), true).expect("a start");
    assert_eq!(
        spawn_err(&parent.command, "boom"),
        "Command \"exe\" \"init\": boom (<Command \"/proc/self/exe\" \"init\"; environ: {}; work-dir=\"/root/mnt/c1\">)"
    );
}

#[test]
fn variables_are_split_at_the_first_equals_sign() {
    assert_eq!(variable_of("HOME=/root"), ("HOME".to_string(), "/root".to_string()));
    assert_eq!(variable_of("A=b=c"), ("A".to_string(), "b=c".to_string()));
    assert_eq!(variable_of("A="), ("A".to_string(), String::new()));
    assert_eq!(variable_of("A"), ("A".to_string(), String::new()));
    assert_eq!(variable_of("=x"), (String::new(), "x".to_string()));
    assert_eq!(variable_of(""), (String::new(), String::new()));
}

#[test]
fn control_pipe_stays_with_the_caller() {
    let mut parent = new_parent_process(true, "c1", "", "busybox", &pairs(&[]), &pairs(&[]), true).expect("a start");
    match parent.command.spawn() {
        Ok(mut child) => {
            assert!(child.take_pipe_reader(CONTROL_PIPE_FD).is_none());
            assert!(child.take_pipe_writer(CONTROL_PIPE_FD).is_some());
            let _ = child.wait();
        }
        Err(e) => {
            // namespaces are for the privileged: a host that refuses them does so at the fork
            assert!(e.to_string().contains("fork"), "{}", e);
        }
    }
}

#[test]
fn child_starts_in_the_root_of_its_container() {
    let parent =
        new_parent_process(true, "web", "", "busybox", &pairs(&[]), &pairs(&[]), true)
            .expect("a start");
    assert!(cmd_debug(&parent.command).ends_with("; work-dir=\"/root/mnt/web\">"));
}

#[test]
fn name_with_nul_is_refused() {
    let refused = new_parent_process(true, "c\0", "", "busybox", &pairs(&[]), &pairs(&[]), true);
    assert_eq!(refused.err(), Some(StartError::NameHoldsNul));
    assert_eq!(StartError::NameHoldsNul.message(), "container name holds a NUL");
}
