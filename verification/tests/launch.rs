use mydocker::init::read_user_command;
use mydocker::launch::{
    command_line, container_id, container_identity, digit_string, rand_string_bytes, run, Action,
    ConfigError, Event, Launch, Mode, RunOptions, CONTAINER_ID_LENGTH,
};
use mydocker::subsystem::ResourceConfig;

fn options(tty: bool, detach: bool, command: &[&str]) -> RunOptions {
    RunOptions {
        create_tty: tty,
        detach,
        res_conf: ResourceConfig {
            memory_limit: String::new(),
            cpu_share: String::new(),
            cpu_set: String::new(),
        },
        container_name: String::new(),
        volume: String::new(),
        network: String::new(),
        env_slice: Vec::new(),
        portmapping: String::new(),
        image_name: "busybox".to_string(),
        command: command.iter().map(|s| s.to_string()).collect(),
    }
}

fn id() -> String {
    "0123456789".to_string()
}

fn drive(events: &[Event], options: &RunOptions) -> (Launch, Vec<Action>) {
    let mut state = Launch::Idle;
    let mut actions = Vec::new();
    for event in events {
        let (next, action) = run(state, *event, options, "0123456789");
        state = next;
        actions.push(action);
    }
    (state, actions)
}

#[test]
fn launch_without_command_is_refused() {
    let (state, actions) = drive(&[Event::Begin], &options(false, false, &[]));
    assert_eq!(state, Launch::Done);
    assert_eq!(actions, vec![Action::Refuse(ConfigError::MissingCommand)]);
    assert_eq!(ConfigError::MissingCommand.message(), "Missing container command");
}

#[test]
fn terminal_and_detach_exclude_each_other() {
    let (state, actions) = drive(&[Event::Begin], &options(true, true, &["sh"]));
    assert_eq!(state, Launch::Done);
    assert_eq!(actions, vec![Action::Refuse(ConfigError::TtyWithDetach)]);
    assert_eq!(ConfigError::TtyWithDetach.message(), "ti and d paramter can not both provided");
}

#[test]
fn detached_launch_leaves_the_container_running() {
    let events = [
        Event::Begin,
        Event::Succeeded,
        Event::Spawned { pid: 42 },
        Event::Succeeded,
        Event::Succeeded,
        Event::Succeeded,
    ];
    let (state, actions) = drive(&events, &options(false, true, &["sh"]));
    assert_eq!(state, Launch::Done);
    assert_eq!(
        actions,
        vec![
            Action::BuildWorkSpace { name: id() },
            Action::Spawn,
            Action::SetLimits { name: id() },
            Action::Attach { name: id(), pid: 42 },
            Action::SendCommand { pid: 42 },
            Action::Finish { pid: 42 },
        ]
    );
}

#[test]
fn attached_launch_waits_and_clears() {
    let events = [
        Event::Begin,
        Event::Succeeded,
        Event::Spawned { pid: 7 },
        Event::Succeeded,
        Event::Succeeded,
        Event::Succeeded,
        Event::Succeeded,
        Event::Failed,
        Event::Succeeded,
    ];
    let (state, actions) = drive(&events, &options(true, false, &["sh"]));
    assert_eq!(state, Launch::Done);
    assert_eq!(
        actions,
        vec![
            Action::BuildWorkSpace { name: id() },
            Action::Spawn,
            Action::SetLimits { name: id() },
            Action::Attach { name: id(), pid: 7 },
            Action::SendCommand { pid: 7 },
            Action::Wait { pid: 7 },
            Action::RemoveLimits { name: id() },
            Action::TearDown { name: id() },
            Action::Finish { pid: 7 },
        ]
    );
}

#[test]
fn command_is_not_sent_when_the_limits_fail() {
    let opts = options(false, false, &["sh"]);
    let (state, actions) = drive(
        &[Event::Begin, Event::Succeeded, Event::Spawned { pid: 7 }, Event::Failed],
        &opts,
    );
    assert_eq!(state, Launch::Done);
    assert_eq!(actions[3], Action::GiveUp { at: Launch::Limiting { pid: 7 } });
    let (_, actions) = drive(
        &[Event::Begin, Event::Succeeded, Event::Spawned { pid: 7 }, Event::Succeeded, Event::Failed],
        &opts,
    );
    assert_eq!(actions[4], Action::GiveUp { at: Launch::Attaching { pid: 7 } });
    assert!(actions.iter().all(|a| !matches!(a, Action::SendCommand { .. })));
}

#[test]
fn early_failures_end_the_launch() {
    let opts = options(false, false, &["sh"]);
    let (_, actions) = drive(&[Event::Begin, Event::Failed], &opts);
    assert_eq!(actions[1], Action::GiveUp { at: Launch::Building });
    let (_, actions) = drive(&[Event::Begin, Event::Succeeded, Event::Failed], &opts);
    assert_eq!(actions[2], Action::GiveUp { at: Launch::Spawning });
    let (_, actions) = drive(&[Event::Begin, Event::Succeeded, Event::Succeeded], &opts);
    assert_eq!(actions[2], Action::GiveUp { at: Launch::Spawning });
    let (state, actions) = drive(&[Event::Succeeded], &opts);
    assert_eq!(actions[0], Action::GiveUp { at: Launch::Idle });
    assert_eq!(state, Launch::Done);
    let (_, actions) = drive(&[Event::Begin, Event::Failed, Event::Begin], &opts);
    assert_eq!(actions[2], Action::GiveUp { at: Launch::Done });
}

#[test]
fn failed_wait_keeps_the_work_space() {
    let events = [
        Event::Begin,
        Event::Succeeded,
        Event::Spawned { pid: 7 },
        Event::Succeeded,
        Event::Succeeded,
        Event::Succeeded,
        Event::Failed,
    ];
    let (_, actions) = drive(&events, &options(true, false, &["sh"]));
    assert_eq!(actions[6], Action::GiveUp { at: Launch::Waiting { pid: 7 } });
    assert!(actions.iter().all(|a| !matches!(a, Action::TearDown { .. })));
}

#[test]
fn identifier_has_ten_digits() {
    assert_eq!(CONTAINER_ID_LENGTH, 10);
    for _ in 0..50 {
        let id = rand_string_bytes(CONTAINER_ID_LENGTH);
        assert_eq!(id.len(), 10);
        assert!(id.chars().all(|c| c.is_ascii_digit()));
    }
    assert_eq!(rand_string_bytes(0), "");
    assert_eq!(rand_string_bytes(3).chars().count(), 3);
}

#[test]
fn identifiers_differ() {
    let ids: std::collections::HashSet<String> = (0..20).map(|_| rand_string_bytes(10)).collect();
    assert!(ids.len() > 1);
}

#[test]
fn digits_become_characters() {
    assert_eq!(digit_string(&vec![0, 1, 2, 9]), "0129");
    assert_eq!(digit_string(&vec![10, 25, 255]), "055");
    assert_eq!(digit_string(&vec![]), "");
}

#[test]
fn name_defaults_to_identifier() {
    assert_eq!(container_identity("", "0123456789"), "0123456789");
    assert_eq!(container_identity("web", "0123456789"), "web");
}

#[test]
fn command_crosses_the_pipe() {
    let command: Vec<String> = vec!["/bin/sh".to_string(), "-c".to_string(), "ls".to_string()];
    let line = command_line(&command);
    assert_eq!(line, "/bin/sh -c ls");
    assert_eq!(read_user_command(line.as_bytes()), Ok(command));
    assert_eq!(command_line(&vec![]), "");
}

#[test]
fn given_name_goes_through_the_launch() {
    let mut opts = options(true, false, &["sh"]);
    opts.container_name = "web".to_string();
    let events = [
        Event::Begin,
        Event::Succeeded,
        Event::Spawned { pid: 7 },
        Event::Succeeded,
        Event::Succeeded,
        Event::Succeeded,
        Event::Succeeded,
        Event::Succeeded,
    ];
    let (_, actions) = drive(&events, &opts);
    let web = || "web".to_string();
    assert_eq!(actions[0], Action::BuildWorkSpace { name: web() });
    assert_eq!(actions[2], Action::SetLimits { name: web() });
    assert_eq!(actions[3], Action::Attach { name: web(), pid: 7 });
    assert_eq!(actions[6], Action::RemoveLimits { name: web() });
    assert_eq!(actions[7], Action::TearDown { name: web() });
}

#[test]
fn container_id_has_ten_digits() {
    let id = container_id();
    assert_eq!(id.len(), 10);
    assert!(id.chars().all(|c| c.is_ascii_digit()));
}

#[test]
fn first_argument_selects_the_mode() {
    assert_eq!(Mode::of(Some("init")), Mode::Init);
    assert_eq!(Mode::of(Some("run")), Mode::Run);
    assert_eq!(Mode::of(Some("tar")), Mode::Tar);
    assert_eq!(Mode::of(Some("mount")), Mode::Mount);
    assert_eq!(Mode::of(Some("unmount")), Mode::Unmount);
    assert_eq!(Mode::of(Some("stop")), Mode::Run);
    assert_eq!(Mode::of(Some("")), Mode::Run);
    assert_eq!(Mode::of(None), Mode::Run);
    assert_eq!(Mode::Tar.tool(), Some("tar".to_string()));
    assert_eq!(Mode::Mount.tool(), Some("mount".to_string()));
    assert_eq!(Mode::Unmount.tool(), Some("umount".to_string()));
    assert_eq!(Mode::Init.tool(), None);
    assert_eq!(Mode::Run.tool(), None);
}
