//! What the first process of a container does inside its namespaces: it
//! takes its command from the control pipe, makes the prepared directory its
//! root, mounts `/proc` and `/dev`, finds the program and becomes it.
//!
//! The library decides each move from what the caller reports of the last
//! one; reading the pipe, the system calls and the final `exec` are the
//! caller's.

use vstd::prelude::*;
use vstd::utf8::{decode_utf8, valid_utf8};
use crate::container::OPEN_MODE;
use crate::plan::{
    all_vital, lemma_vital_plan_stops_at_failure, performs, vital, OnFailure, Plan, PlannedView,
    Step, StepView, MS_BIND, MS_NODEV, MS_NOEXEC, MS_NOSUID, MS_REC, MS_STRICTATIME,
};
use crate::text::{
    absolute, followed_by, has_text, is_absolute, join, join_path, split, split_on, split_words,
    words,
};

verus! {

/// Where programs are looked for when the environment names no `PATH`.
pub const DEFAULT_PATH: &'static str =
    "/sbin:/bin:/usr/sbin:/usr/bin:/usr/local/sbin:/usr/local/bin";

/// Why the first process of a container ends without becoming the command.
#[derive(Clone, Debug, PartialEq, Eq)]
pub enum InitError {
    /// The control pipe could not be read.
    PipeUnreadable,
    /// What the control pipe held is not UTF-8.
    NotUtf8,
    /// The control pipe held no word.
    NoCommand,
    /// The working directory, which is to become the root, is not known.
    NoWorkingDirectory,
    /// A step towards the new root, or one of the mounts after it, failed.
    MountFailed,
    /// No directory of the search path holds the program.
    NotFound { program: String },
    /// The program could not be executed.
    ExecFailed { program: String },
    /// The caller reported something that was not asked for.
    OutOfTurn,
}

/// An [`InitError`] with its texts as character sequences.
pub enum InitErrorView {
    PipeUnreadable,
    NotUtf8,
    NoCommand,
    NoWorkingDirectory,
    MountFailed,
    NotFound { program: Seq<char> },
    ExecFailed { program: Seq<char> },
    OutOfTurn,
}

impl View for InitError {
    type V = InitErrorView;

    open spec fn view(&self) -> InitErrorView {
        match *self {
            InitError::PipeUnreadable => InitErrorView::PipeUnreadable,
            InitError::NotUtf8 => InitErrorView::NotUtf8,
            InitError::NoCommand => InitErrorView::NoCommand,
            InitError::NoWorkingDirectory => InitErrorView::NoWorkingDirectory,
            InitError::MountFailed => InitErrorView::MountFailed,
            InitError::NotFound { program } => InitErrorView::NotFound { program: program@ },
            InitError::ExecFailed { program } => InitErrorView::ExecFailed { program: program@ },
            InitError::OutOfTurn => InitErrorView::OutOfTurn,
        }
    }
}

/// The bytes as text, where they are UTF-8.
///
/// Calls `core::str::from_utf8`. The contract claims that it accepts exactly
/// the byte sequences that are valid UTF-8, and that the text it returns is
/// the one that these bytes encode.
#[verifier::external_body]
fn utf8_text(bytes: &[u8]) -> (r: Option<&str>)
    ensures
        r is Some <==> valid_utf8(bytes@),
        r matches Some(s) ==> s@ == decode_utf8(bytes@),
{
    match core::str::from_utf8(bytes) {
        Ok(text) => Some(text),
        Err(_) => None,
    }
}

/// The command that the bytes of the control pipe hold: their words, where
/// the bytes are UTF-8 and hold at least one word.
pub open spec fn user_command(bytes: Seq<u8>) -> Result<Seq<Seq<char>>, InitErrorView> {
    if !valid_utf8(bytes) {
        Err(InitErrorView::NotUtf8)
    } else if words(decode_utf8(bytes)).len() == 0 {
        Err(InitErrorView::NoCommand)
    } else {
        Ok(words(decode_utf8(bytes)))
    }
}

/// Reads the command from what the control pipe held up to its end.
pub fn read_user_command(bytes: &[u8]) -> (r: Result<Vec<String>, InitError>)
    ensures
        match r {
            Ok(command) => user_command(bytes@) == Ok::<_, InitErrorView>(command.deep_view()),
            Err(e) => user_command(bytes@) == Err::<Seq<Seq<char>>, _>(e@),
        },
{
    match utf8_text(bytes) {
        None => Err(InitError::NotUtf8),
        Some(text) => {
            let command = split_words(text);
            if command.len() == 0 {
                Err(InitError::NoCommand)
            } else {
                Ok(command)
            }
        },
    }
}

/// The name of the directory that takes the old root while the roots are
/// exchanged.
pub const PIVOT_DIR_NAME: &'static str = ".pivot_root";

/// The directory below `root` that takes the old root while the roots are
/// exchanged.
pub open spec fn pivot_dir(root: Seq<char>) -> Seq<char> {
    join_path(root, PIVOT_DIR_NAME@)
}

/// Where [`pivot_dir`] is found once its root has become the root: under
/// the same name, below `/`.
pub open spec fn moved_pivot_dir() -> Seq<char> {
    join_path("/"@, PIVOT_DIR_NAME@)
}

/// The steps that make `root` the root of the mount namespace: `root` is
/// bound onto itself with all below it, the directory for the old root is
/// made, the roots are exchanged, the working directory moves to the new
/// root, and the old root is detached and its directory removed where they
/// now are, below the new root. After the first step that fails nothing more
/// is done.
pub open spec fn root_pivot_plan(root: Seq<char>) -> Seq<PlannedView> {
    seq![
        vital(
            StepView::Mount {
                source: root,
                target: root,
                fstype: "bind"@,
                flags: MS_BIND | MS_REC,
                options: None,
            },
        ),
        vital(StepView::CreateDir { path: pivot_dir(root), mode: OPEN_MODE }),
        vital(StepView::PivotRoot { new_root: root, put_old: pivot_dir(root) }),
        vital(StepView::ChangeDir { path: "/"@ }),
        vital(StepView::Detach { target: moved_pivot_dir() }),
        vital(StepView::RemoveTree { path: moved_pivot_dir() }),
    ]
}

/// The two mounts that follow the exchange of the roots: a fresh `/proc`
/// without programs, set-user-ID and devices, and a `tmpfs` on `/dev`.
pub open spec fn device_mounts_plan() -> Seq<PlannedView> {
    seq![
        vital(
            StepView::Mount {
                source: "proc"@,
                target: "/proc"@,
                fstype: "proc"@,
                flags: MS_NOEXEC | MS_NOSUID | MS_NODEV,
                options: None,
            },
        ),
        vital(
            StepView::Mount {
                source: "tmpfs"@,
                target: "/dev"@,
                fstype: "tmpfs"@,
                flags: MS_NOSUID | MS_STRICTATIME,
                options: Some("mode=755"@),
            },
        ),
    ]
}

/// The mounts of a container's first process, whose working directory is
/// `cwd`: the exchange of the roots towards `cwd`, then `/proc` and `/dev`.
/// After the first step that fails nothing more is done.
pub open spec fn setup_mount_plan(cwd: Seq<char>) -> Seq<PlannedView> {
    root_pivot_plan(cwd) + device_mounts_plan()
}

/// Plans the exchange of the roots towards `root`.
pub fn root_pivot(root: &str) -> (plan: Plan)
    ensures
        plan@ == root_pivot_plan(root@),
{
    let mut plan = Plan::new();
    plan.vital(
        Step::Mount {
            source: root.to_owned(),
            target: root.to_owned(),
            fstype: "bind".to_owned(),
            flags: MS_BIND | MS_REC,
            options: None,
        },
    );
    plan.vital(Step::CreateDir { path: join(root, PIVOT_DIR_NAME), mode: OPEN_MODE });
    plan.vital(Step::PivotRoot { new_root: root.to_owned(), put_old: join(root, PIVOT_DIR_NAME) });
    plan.vital(Step::ChangeDir { path: "/".to_owned() });
    plan.vital(Step::Detach { target: join("/", PIVOT_DIR_NAME) });
    plan.vital(Step::RemoveTree { path: join("/", PIVOT_DIR_NAME) });
    plan
}

/// The directory that is detached and removed is the one that took the old
/// root.
///
/// The exchange of the roots puts the old root into the directory that the
/// step before it has made: the directory named [`PIVOT_DIR_NAME`] directly
/// below `root`. Once `root` is the root, that directory is `/.pivot_root`:
/// the same name directly below `/`, and this is what the plan detaches and
/// then removes, after the working directory has moved to `/`.
pub proof fn lemma_old_root_is_taken_away(root: Seq<char>)
    ensures
        ({
            let plan = root_pivot_plan(root);
            let name = PIVOT_DIR_NAME@;
            &&& plan.len() == 6
            &&& plan[1].step == StepView::CreateDir { path: pivot_dir(root), mode: OPEN_MODE }
            &&& plan[2].step == StepView::PivotRoot { new_root: root, put_old: pivot_dir(root) }
            &&& plan[3].step == StepView::ChangeDir { path: "/"@ }
            &&& plan[4].step == StepView::Detach { target: moved_pivot_dir() }
            &&& plan[5].step == StepView::RemoveTree { path: moved_pivot_dir() }
            &&& pivot_dir(root) == if root.len() == 0 {
                name
            } else if root.last() == '/' {
                root + name
            } else {
                root.push('/') + name
            }
            &&& moved_pivot_dir() == "/"@ + name
            &&& moved_pivot_dir() == "/.pivot_root"@
            &&& !name.contains('/')
        }),
{
    reveal_strlit(".pivot_root");
    reveal_strlit("/");
    reveal_strlit("/.pivot_root");
    let name = PIVOT_DIR_NAME@;
    assert(name.len() == 11 && name[0] == '.');
    assert("/"@.len() == 1 && "/"@[0] == '/');
    assert("/"@ + name =~= "/.pivot_root"@);
    assert(!name.contains('/')) by {
        if name.contains('/') {
            let i = choose|i: int| 0 <= i < name.len() && name[i] == '/';
            assert(name[i] == '/');
        }
    }
}

/// Plans the mounts of a container's first process, whose working directory
/// is `cwd`. Without a working directory there is no root to move to: that is
/// an error.
pub fn setup_mount(cwd: Option<&str>) -> (r: Result<Plan, InitError>)
    ensures
        match r {
            Ok(plan) => cwd matches Some(dir) && plan@ == setup_mount_plan(dir@),
            Err(e) => cwd is None && e@ == InitErrorView::NoWorkingDirectory,
        },
{
    match cwd {
        None => Err(InitError::NoWorkingDirectory),
        Some(dir) => {
            let mut plan = root_pivot(dir);
            plan.vital(
                Step::Mount {
                    source: "proc".to_owned(),
                    target: "/proc".to_owned(),
                    fstype: "proc".to_owned(),
                    flags: MS_NOEXEC | MS_NOSUID | MS_NODEV,
                    options: None,
                },
            );
            plan.vital(
                Step::Mount {
                    source: "tmpfs".to_owned(),
                    target: "/dev".to_owned(),
                    fstype: "tmpfs".to_owned(),
                    flags: MS_NOSUID | MS_STRICTATIME,
                    options: Some("mode=755".to_owned()),
                },
            );
            assert(plan@ =~= root_pivot_plan(dir@) + device_mounts_plan());
            Ok(plan)
        },
    }
}

/// A failed step ends the mounts.
///
/// The plan holds the six steps towards the new root and the mounts of
/// `/proc` and of `/dev`. Whatever succeeds and fails, a step is performed
/// exactly where all steps before it have succeeded: after a failure on the
/// way to the new root neither `/proc` nor `/dev` is mounted.
pub proof fn lemma_failed_step_ends_the_mounts(
    cwd: Seq<char>,
    ok: spec_fn(int) -> bool,
    at: int,
)
    requires
        0 <= at < 8,
    ensures
        setup_mount_plan(cwd).len() == 8,
        all_vital(setup_mount_plan(cwd)),
        setup_mount_plan(cwd)[6].step is Mount,
        setup_mount_plan(cwd)[7].step is Mount,
        performs(setup_mount_plan(cwd), ok, at) <==> forall|j: int|
            0 <= j < at ==> #[trigger] ok(j),
{
    let plan = setup_mount_plan(cwd);
    assert(plan.len() == 8);
    assert forall|i: int| 0 <= i < plan.len() implies (#[trigger] plan[i]).on_failure
        == OnFailure::Abort by {
        if i < 6 {
            assert(plan[i] == root_pivot_plan(cwd)[i]);
        } else {
            assert(plan[i] == device_mounts_plan()[i - 6]);
        }
    }
    lemma_vital_plan_stops_at_failure(plan, ok, at);
}

/// The places where the program `cmd` may be: `cmd` taken from each
/// directory of the colon-separated list `path`, in the order of the list.
pub open spec fn candidates(cmd: Seq<char>, path: Seq<char>) -> Seq<Seq<char>> {
    split_on(path, ':').map_values(|dir: Seq<char>| join_path(dir, cmd))
}

/// The first of `places` that is among `existing`.
pub open spec fn first_existing(places: Seq<Seq<char>>, existing: Seq<Seq<char>>) -> Option<
    Seq<char>,
>
    decreases places.len(),
{
    if places.len() == 0 {
        None
    } else if existing.contains(places[0]) {
        Some(places[0])
    } else {
        first_existing(places.drop_first(), existing)
    }
}

/// The program that `cmd` names: `cmd` itself where it is an absolute path,
/// else the first of its [`candidates`] on `path` that exists.
pub open spec fn resolved(cmd: Seq<char>, path: Seq<char>, existing: Seq<Seq<char>>) -> Option<
    Seq<char>,
> {
    if is_absolute(cmd) {
        Some(cmd)
    } else {
        first_existing(candidates(cmd, path), existing)
    }
}

/// [`first_existing`] picks the place with the least index that exists.
pub proof fn lemma_first_existing_is_least(places: Seq<Seq<char>>, existing: Seq<Seq<char>>)
    ensures
        match first_existing(places, existing) {
            Some(p) => exists|i: int|
                0 <= i < places.len() && places[i] == p && existing.contains(p) && forall|j: int|
                    0 <= j < i ==> !existing.contains(#[trigger] places[j]),
            None => forall|i: int|
                0 <= i < places.len() ==> !existing.contains(#[trigger] places[i]),
        },
    decreases places.len(),
{
    if places.len() > 0 {
        let rest = places.drop_first();
        if existing.contains(places[0]) {
            assert(forall|j: int| 0 <= j < 0 ==> !existing.contains(#[trigger] places[j]));
        } else {
            lemma_first_existing_is_least(rest, existing);
            match first_existing(rest, existing) {
                Some(p) => {
                    let i = choose|i: int|
                        0 <= i < rest.len() && rest[i] == p && existing.contains(p) && forall|
                            j: int,
                        |
                            0 <= j < i ==> !existing.contains(#[trigger] rest[j]);
                    assert(places[i + 1] == p);
                    assert forall|j: int| 0 <= j < i + 1 implies !existing.contains(
                        #[trigger] places[j],
                    ) by {
                        if j > 0 {
                            assert(places[j] == rest[j - 1]);
                        }
                    }
                },
                None => {
                    assert forall|i: int| 0 <= i < places.len() implies !existing.contains(
                        #[trigger] places[i],
                    ) by {
                        if i > 0 {
                            assert(places[i] == rest[i - 1]);
                        }
                    }
                },
            }
        }
    }
}

/// The places to look at for the program `cmd` on the search path `path`.
pub fn path_candidates(cmd: &str, path: &str) -> (places: Vec<String>)
    ensures
        places.deep_view() == candidates(cmd@, path@),
{
    let dirs = split(path, ':');
    let mut places: Vec<String> = Vec::new();
    let mut i: usize = 0;
    while i < dirs.len()
        invariant
            i <= dirs.len(),
            dirs.deep_view() == split_on(path@, ':'),
            places.deep_view() == candidates(cmd@, path@).take(i as int),
        decreases dirs.len() - i,
    {
        let ghost before = places.deep_view();
        places.push(join(dirs[i].as_str(), cmd));
        assert(places.deep_view() =~= before.push(join_path(dirs.deep_view()[i as int], cmd@)));
        assert(places.deep_view() =~= candidates(cmd@, path@).take(i + 1));
        i += 1;
    }
    assert(candidates(cmd@, path@).take(dirs.len() as int) =~= candidates(cmd@, path@));
    places
}

/// The first of `places` that is among `existing`.
fn first_of(places: &Vec<String>, existing: &Vec<String>) -> (r: Option<String>)
    ensures
        match r {
            Some(p) => first_existing(places.deep_view(), existing.deep_view()) == Some(p@),
            None => first_existing(places.deep_view(), existing.deep_view()) is None,
        },
{
    let mut i: usize = 0;
    assert(places.deep_view().skip(0) =~= places.deep_view());
    while i < places.len()
        invariant
            i <= places.len(),
            first_existing(places.deep_view(), existing.deep_view()) == first_existing(
                places.deep_view().skip(i as int),
                existing.deep_view(),
            ),
        decreases places.len() - i,
    {
        let ghost rest = places.deep_view().skip(i as int);
        assert(rest[0] == places.deep_view()[i as int]);
        assert(rest.drop_first() =~= places.deep_view().skip(i + 1));
        if has_text(existing, places[i].as_str()) {
            return Some(places[i].clone());
        }
        i += 1;
    }
    assert(places.deep_view().skip(places.len() as int).len() == 0);
    None
}

/// Finds the program `cmd`: `cmd` itself where it is an absolute path, else
/// the first directory of the colon-separated list `path` that holds it.
/// `existing` names the files that exist, at least among
/// [`path_candidates`]`(cmd, path)`.
pub fn path_find(cmd: &str, path: &str, existing: &Vec<String>) -> (r: Option<String>)
    ensures
        match r {
            Some(p) => resolved(cmd@, path@, existing.deep_view()) == Some(p@),
            None => resolved(cmd@, path@, existing.deep_view()) is None,
        },
{
    if absolute(cmd) {
        return Some(cmd.to_owned());
    }
    let places = path_candidates(cmd, path);
    first_of(&places, existing)
}

/// The search path: what the environment holds under `PATH`, or
/// [`DEFAULT_PATH`] where it holds nothing.
pub open spec fn search_path(path_var: Option<Seq<char>>) -> Seq<char> {
    match path_var {
        Some(path) => path,
        None => DEFAULT_PATH@,
    }
}

/// Finds the program `cmd` on the search path of the environment, whose
/// `PATH` is `path_var` (see [`path_find`]).
pub fn env_path_find(cmd: &str, path_var: Option<&str>, existing: &Vec<String>) -> (r: Option<
    String,
>)
    ensures
        match r {
            Some(p) => resolved(
                cmd@,
                search_path(
                    match path_var {
                        Some(p) => Some(p@),
                        None => None,
                    },
                ),
                existing.deep_view(),
            ) == Some(p@),
            None => resolved(
                cmd@,
                search_path(
                    match path_var {
                        Some(p) => Some(p@),
                        None => None,
                    },
                ),
                existing.deep_view(),
            ) is None,
        },
{
    match path_var {
        Some(path) => path_find(cmd, path, existing),
        None => path_find(cmd, DEFAULT_PATH, existing),
    }
}

impl InitError {
    /// What to say of the error.
    pub open spec fn message_of(e: InitErrorView) -> Seq<char> {
        match e {
            InitErrorView::PipeUnreadable => "Error reading from fd 3"@,
            InitErrorView::NotUtf8 => "command is not valid UTF-8"@,
            InitErrorView::NoCommand => "Missing container command"@,
            InitErrorView::NoWorkingDirectory => "Get current location error"@,
            InitErrorView::MountFailed => "mount setup failed"@,
            InitErrorView::NotFound { program } => "command not found: "@ + program,
            InitErrorView::ExecFailed { program } => "failed in exec "@ + program,
            InitErrorView::OutOfTurn => "unexpected event"@,
        }
    }

    /// What to say of the error.
    pub fn message(&self) -> (m: String)
        ensures
            m@ == InitError::message_of(self@),
    {
        match self {
            InitError::PipeUnreadable => "Error reading from fd 3".to_owned(),
            InitError::NotUtf8 => "command is not valid UTF-8".to_owned(),
            InitError::NoCommand => "Missing container command".to_owned(),
            InitError::NoWorkingDirectory => "Get current location error".to_owned(),
            InitError::MountFailed => "mount setup failed".to_owned(),
            InitError::NotFound { program } => followed_by("command not found: ", program.as_str()),
            InitError::ExecFailed { program } => followed_by("failed in exec ", program.as_str()),
            InitError::OutOfTurn => "unexpected event".to_owned(),
        }
    }
}

/// How far the first process of a container has come.
#[derive(Clone, Copy, Debug, PartialEq, Eq, Structural)]
pub enum InitStage {
    /// Nothing was done yet.
    Start,
    /// The command is being read from the control pipe.
    Reading,
    /// The mounts are being performed.
    Mounting,
    /// The program is being looked for.
    Resolving,
    /// The program is being executed.
    Executing,
    /// The process is to end.
    Exited,
}

/// The state of the first process of a container.
#[derive(Clone, Debug, PartialEq, Eq)]
pub struct InitState {
    pub stage: InitStage,
    /// The words of the command, once they have been read.
    pub command: Vec<String>,
}

/// An [`InitState`] with its texts as character sequences.
pub struct InitStateView {
    pub stage: InitStage,
    pub command: Seq<Seq<char>>,
}

impl View for InitState {
    type V = InitStateView;

    open spec fn view(&self) -> InitStateView {
        InitStateView { stage: self.stage, command: self.command.deep_view() }
    }
}

/// What the caller reports.
#[derive(Clone, Debug, PartialEq, Eq)]
pub enum InitEvent {
    /// The process has started.
    Begin,
    /// The control pipe held these bytes up to its end.
    Command(Vec<u8>),
    /// The control pipe could not be read.
    Unreadable,
    /// The plan was walked to its end, and every step of it succeeded.
    Performed,
    /// A step of the plan failed.
    PlanFailed,
    /// Of the places asked about, these exist.
    Existing(Vec<String>),
    /// The program could not be executed.
    ExecFailed,
}

/// An [`InitEvent`] with its texts as character sequences.
pub enum InitEventView {
    Begin,
    Command(Seq<u8>),
    Unreadable,
    Performed,
    PlanFailed,
    Existing(Seq<Seq<char>>),
    ExecFailed,
}

impl View for InitEvent {
    type V = InitEventView;

    open spec fn view(&self) -> InitEventView {
        match *self {
            InitEvent::Begin => InitEventView::Begin,
            InitEvent::Command(bytes) => InitEventView::Command(bytes@),
            InitEvent::Unreadable => InitEventView::Unreadable,
            InitEvent::Performed => InitEventView::Performed,
            InitEvent::PlanFailed => InitEventView::PlanFailed,
            InitEvent::Existing(list) => InitEventView::Existing(list.deep_view()),
            InitEvent::ExecFailed => InitEventView::ExecFailed,
        }
    }
}

/// What the caller is to do next.
#[derive(Clone, Debug, PartialEq, Eq)]
pub enum InitAction {
    /// Read the control pipe to its end and report what it held.
    ReadCommand,
    /// Walk the plan; report that it was performed, or that a step failed.
    Perform(Plan),
    /// Report which of these places exist.
    Probe(Vec<String>),
    /// Replace the process by the program; report if that fails.
    Exec { program: String, args: Vec<String> },
    /// End the process with a status other than zero.
    Exit(InitError),
}

/// An [`InitAction`] with its texts as character sequences.
pub enum InitActionView {
    ReadCommand,
    Perform(Seq<PlannedView>),
    Probe(Seq<Seq<char>>),
    Exec { program: Seq<char>, args: Seq<Seq<char>> },
    Exit(InitErrorView),
}

impl View for InitAction {
    type V = InitActionView;

    open spec fn view(&self) -> InitActionView {
        match *self {
            InitAction::ReadCommand => InitActionView::ReadCommand,
            InitAction::Perform(plan) => InitActionView::Perform(plan@),
            InitAction::Probe(places) => InitActionView::Probe(places.deep_view()),
            InitAction::Exec { program, args } => InitActionView::Exec {
                program: program@,
                args: args.deep_view(),
            },
            InitAction::Exit(e) => InitActionView::Exit(e@),
        }
    }
}

/// The state in which the process ends.
pub open spec fn exited() -> InitStateView {
    InitStateView { stage: InitStage::Exited, command: Seq::empty() }
}

/// The end of the process on the error `e`.
pub open spec fn exit_with(e: InitErrorView) -> (InitStateView, InitActionView) {
    (exited(), InitActionView::Exit(e))
}

/// The execution of `program` with all words of `command` but the first.
pub open spec fn execute(program: Seq<char>, command: Seq<Seq<char>>) -> (
    InitStateView,
    InitActionView,
) {
    (
        InitStateView { stage: InitStage::Executing, command },
        InitActionView::Exec { program, args: command.skip(1) },
    )
}

/// The next state and the next thing to do, from the state and from what was
/// reported. `cwd` is the working directory where it is known, `path_var`
/// what the environment holds under `PATH`.
///
/// The command is read first; the mounts follow once it is there; the program
/// is looked for after the mounts have succeeded, inside the new root; it is
/// executed once it is found. Every failure ends the process: a command that
/// cannot be read, holds no UTF-8 or no word, an unknown working directory, a
/// failed step of the mounts, a program that is not found or cannot be
/// executed, and a report that was not asked for.
pub open spec fn init_step(
    state: InitStateView,
    event: InitEventView,
    cwd: Option<Seq<char>>,
    path_var: Option<Seq<char>>,
) -> (InitStateView, InitActionView) {
    match (state.stage, event) {
        (InitStage::Start, InitEventView::Begin) => (
            InitStateView { stage: InitStage::Reading, command: Seq::empty() },
            InitActionView::ReadCommand,
        ),
        (InitStage::Reading, InitEventView::Command(bytes)) => match user_command(bytes) {
            Ok(command) => match cwd {
                Some(dir) => (
                    InitStateView { stage: InitStage::Mounting, command },
                    InitActionView::Perform(setup_mount_plan(dir)),
                ),
                None => exit_with(InitErrorView::NoWorkingDirectory),
            },
            Err(e) => exit_with(e),
        },
        (InitStage::Reading, InitEventView::Unreadable) => exit_with(
            InitErrorView::PipeUnreadable,
        ),
        (InitStage::Mounting, InitEventView::PlanFailed) => exit_with(InitErrorView::MountFailed),
        (InitStage::Mounting, InitEventView::Performed) => if state.command.len() == 0 {
            exit_with(InitErrorView::NoCommand)
        } else if is_absolute(state.command[0]) {
            execute(state.command[0], state.command)
        } else {
            (
                InitStateView { stage: InitStage::Resolving, command: state.command },
                InitActionView::Probe(candidates(state.command[0], search_path(path_var))),
            )
        },
        (InitStage::Resolving, InitEventView::Existing(existing)) => if state.command.len()
            == 0 {
            exit_with(InitErrorView::NoCommand)
        } else {
            match resolved(state.command[0], search_path(path_var), existing) {
                Some(program) => execute(program, state.command),
                None => exit_with(InitErrorView::NotFound { program: state.command[0] }),
            }
        },
        (InitStage::Executing, InitEventView::ExecFailed) => if state.command.len() == 0 {
            exit_with(InitErrorView::NoCommand)
        } else {
            exit_with(InitErrorView::ExecFailed { program: state.command[0] })
        },
        _ => exit_with(InitErrorView::OutOfTurn),
    }
}

impl InitState {
    /// The state of a process that has done nothing yet.
    pub fn new() -> (state: InitState)
        ensures
            state@ == (InitStateView { stage: InitStage::Start, command: Seq::empty() }),
    {
        let state = InitState { stage: InitStage::Start, command: Vec::new() };
        assert(state.command.deep_view() =~= Seq::<Seq<char>>::empty());
        state
    }
}

/// All words of `command` but the first.
fn arguments(command: &Vec<String>) -> (args: Vec<String>)
    requires
        command.len() > 0,
    ensures
        args.deep_view() == command.deep_view().skip(1),
{
    let mut args: Vec<String> = Vec::new();
    let mut i: usize = 1;
    assert(args.deep_view() =~= command.deep_view().subrange(1, 1));
    while i < command.len()
        invariant
            1 <= i <= command.len(),
            args.deep_view() == command.deep_view().subrange(1, i as int),
        decreases command.len() - i,
    {
        let ghost before = args.deep_view();
        args.push(command[i].clone());
        assert(args.deep_view() =~= before.push(command.deep_view()[i as int]));
        i += 1;
    }
    assert(command.deep_view().subrange(1, command.len() as int) =~= command.deep_view().skip(
        1,
    ));
    args
}

/// The end of the process on the error `e`.
fn leave(e: InitError) -> (r: (InitState, InitAction))
    ensures
        (r.0@, r.1@) == exit_with(e@),
{
    let state = InitState { stage: InitStage::Exited, command: Vec::new() };
    assert(state.command.deep_view() =~= Seq::<Seq<char>>::empty());
    (state, InitAction::Exit(e))
}

/// The execution of `program` with all words of `command` but the first.
fn become_program(program: String, command: Vec<String>) -> (r: (InitState, InitAction))
    requires
        command.len() > 0,
    ensures
        (r.0@, r.1@) == execute(program@, command.deep_view()),
{
    let args = arguments(&command);
    (InitState { stage: InitStage::Executing, command }, InitAction::Exec { program, args })
}

/// Decides what the first process of a container does next (see
/// [`init_step`]). The caller starts with [`InitState::new`] and
/// [`InitEvent::Begin`], does what it is told, and comes back with the state
/// it was given and the report of what happened, until it is told to execute
/// the program or to end. `cwd` is the working directory where it is known,
/// `path_var` what the environment holds under `PATH`.
pub fn run_container_init_process(
    state: InitState,
    event: InitEvent,
    cwd: Option<&str>,
    path_var: Option<&str>,
) -> (r: (InitState, InitAction))
    ensures
        (r.0@, r.1@) == init_step(
            state@,
            event@,
            match cwd {
                Some(dir) => Some(dir@),
                None => None,
            },
            match path_var {
                Some(path) => Some(path@),
                None => None,
            },
        ),
{
    let InitState { stage, command } = state;
    match (stage, event) {
        (InitStage::Start, InitEvent::Begin) => {
            let next = InitState { stage: InitStage::Reading, command: Vec::new() };
            assert(next.command.deep_view() =~= Seq::<Seq<char>>::empty());
            (next, InitAction::ReadCommand)
        },
        (InitStage::Reading, InitEvent::Command(bytes)) => {
            match read_user_command(bytes.as_slice()) {
                Ok(words) => match setup_mount(cwd) {
                    Ok(plan) => (
                        InitState { stage: InitStage::Mounting, command: words },
                        InitAction::Perform(plan),
                    ),
                    Err(e) => leave(e),
                },
                Err(e) => leave(e),
            }
        },
        (InitStage::Reading, InitEvent::Unreadable) => leave(InitError::PipeUnreadable),
        (InitStage::Mounting, InitEvent::PlanFailed) => leave(InitError::MountFailed),
        (InitStage::Mounting, InitEvent::Performed) => {
            if command.len() == 0 {
                leave(InitError::NoCommand)
            } else if absolute(command[0].as_str()) {
                let program = command[0].clone();
                become_program(program, command)
            } else {
                let path = match path_var {
                    Some(path) => path,
                    None => DEFAULT_PATH,
                };
                let places = path_candidates(command[0].as_str(), path);
                (InitState { stage: InitStage::Resolving, command }, InitAction::Probe(places))
            }
        },
        (InitStage::Resolving, InitEvent::Existing(existing)) => {
            if command.len() == 0 {
                leave(InitError::NoCommand)
            } else {
                match env_path_find(command[0].as_str(), path_var, &existing) {
                    Some(program) => become_program(program, command),
                    None => leave(InitError::NotFound { program: command[0].clone() }),
                }
            }
        },
        (InitStage::Executing, InitEvent::ExecFailed) => {
            if command.len() == 0 {
                leave(InitError::NoCommand)
            } else {
                leave(InitError::ExecFailed { program: command[0].clone() })
            }
        },
        _ => leave(InitError::OutOfTurn),
    }
}

/// The order of the first process's moves.
///
/// Nothing is mounted before the command has been read from the control pipe
/// to its end. The program is looked for, and executed, only once the mounts
/// have been reported as performed: a failed step of the mounts ends the
/// process. The program is the first word of the command where that is an
/// absolute path, else a place that was reported to exist. Once the process
/// is to end, nothing else is asked for.
pub proof fn lemma_init_order(
    state: InitStateView,
    event: InitEventView,
    cwd: Option<Seq<char>>,
    path_var: Option<Seq<char>>,
)
    ensures
        ({
            let (next, action) = init_step(state, event, cwd, path_var);
            &&& action is Perform ==> state.stage == InitStage::Reading && event is Command
            &&& action is Probe ==> state.stage == InitStage::Mounting && event is Performed
            &&& next.stage == InitStage::Resolving ==> action is Probe
            &&& state.stage == InitStage::Mounting && event is PlanFailed ==> action == (
            InitActionView::Exit(InitErrorView::MountFailed))
            &&& state.stage == InitStage::Mounting && !(event is Performed) ==> action is Exit
            &&& action matches InitActionView::Exec { program, args } ==> {
                &&& state.stage == InitStage::Mounting && event is Performed || state.stage
                    == InitStage::Resolving && event is Existing
                &&& state.command.len() > 0
                &&& args == state.command.skip(1)
                &&& if is_absolute(state.command[0]) {
                    program == state.command[0]
                } else {
                    event matches InitEventView::Existing(existing) && existing.contains(
                        program,
                    )
                }
            }
            &&& state.stage == InitStage::Exited ==> action is Exit && next.stage
                == InitStage::Exited
            &&& action is Exit <==> next.stage == InitStage::Exited
        }),
{
    if state.stage == InitStage::Resolving && state.command.len() > 0 {
        if let InitEventView::Existing(existing) = event {
            lemma_first_existing_is_least(
                candidates(state.command[0], search_path(path_var)),
                existing,
            );
        }
    }
}

/// The state of the first process after the reports `events`, the first of
/// which is its start, and what the caller was told to do on each of them.
pub open spec fn init_course(
    events: Seq<InitEventView>,
    cwd: Option<Seq<char>>,
    path_var: Option<Seq<char>>,
) -> (InitStateView, Seq<InitActionView>)
    decreases events.len(),
{
    if events.len() == 0 {
        (InitStateView { stage: InitStage::Start, command: Seq::empty() }, Seq::empty())
    } else {
        let before = init_course(events.drop_last(), cwd, path_var);
        let moved = init_step(before.0, events.last(), cwd, path_var);
        (moved.0, before.1.push(moved.1))
    }
}

/// Whether the move at `at` came in its turn: the mounts are asked for as
/// the second move, on the command; the program is looked for as the third,
/// on the report that the mounts were performed; it is executed as the third
/// move on that same report, or as the fourth on the report of what exists.
pub open spec fn init_in_turn(
    events: Seq<InitEventView>,
    actions: Seq<InitActionView>,
    at: int,
) -> bool {
    match actions[at] {
        InitActionView::ReadCommand => at == 0,
        InitActionView::Perform(_) => at == 1 && events[1] is Command,
        InitActionView::Probe(_) => at == 2 && actions[1] is Perform && events[2] is Performed,
        InitActionView::Exec { program, args } => actions[1] is Perform && events[2]
            is Performed && (at == 2 || at == 3 && actions[2] is Probe && events[3] is Existing),
        InitActionView::Exit(_) => true,
    }
}

/// What the state of the first process tells of its last moves.
pub open spec fn init_settled(
    events: Seq<InitEventView>,
    state: InitStateView,
    actions: Seq<InitActionView>,
) -> bool {
    let n = actions.len() as int;
    &&& actions.len() == events.len()
    &&& match state.stage {
        InitStage::Start => n == 0,
        InitStage::Reading => n == 1,
        InitStage::Mounting => n == 2 && actions[1] is Perform,
        InitStage::Resolving => n == 3 && actions[1] is Perform && actions[2] is Probe
            && events[2] is Performed,
        InitStage::Executing => n >= 3,
        InitStage::Exited => n >= 1,
    }
}

/// No program without its root.
///
/// In every course of the first process, whatever is reported, every move
/// comes in its turn (see [`init_in_turn`]): a program is looked for and
/// executed only after the mounts were asked for and reported as performed,
/// so never after a failed step towards the new root.
pub proof fn lemma_no_program_without_root(
    events: Seq<InitEventView>,
    cwd: Option<Seq<char>>,
    path_var: Option<Seq<char>>,
)
    ensures
        init_settled(
            events,
            init_course(events, cwd, path_var).0,
            init_course(events, cwd, path_var).1,
        ),
        forall|at: int|
            0 <= at < events.len() ==> init_in_turn(
                events,
                init_course(events, cwd, path_var).1,
                at,
            ),
    decreases events.len(),
{
    if events.len() > 0 {
        let front = events.drop_last();
        lemma_no_program_without_root(front, cwd, path_var);
        let before = init_course(front, cwd, path_var).0;
        let done = init_course(front, cwd, path_var).1;
        let moved = init_step(before, events.last(), cwd, path_var);
        let actions = init_course(events, cwd, path_var).1;
        let n = done.len() as int;
        assert(actions == done.push(moved.1));
        assert(init_settled(front, before, done));
        assert forall|at: int| 0 <= at < events.len() implies init_in_turn(
            events,
            actions,
            at,
        ) by {
            if at < n {
                assert(init_in_turn(front, done, at));
                assert(actions[at] == done[at]);
            } else {
                assert(actions[n] == moved.1);
                assert(events[n] == events.last());
            }
            if n >= 2 {
                assert(actions[1] == done[1]);
                assert(events[1] == front[1]);
            }
            if n >= 3 {
                assert(actions[2] == done[2]);
                assert(events[2] == front[2]);
            }
            if n >= 4 {
                assert(events[3] == front[3]);
            }
        }
        assert(init_settled(events, moved.0, actions)) by {
            if n >= 2 {
                assert(actions[1] == done[1]);
            }
            if n >= 3 {
                assert(actions[2] == done[2]);
                assert(events[2] == front[2]);
            }
        }
    }
}

/// How the first process of a container ends.
#[derive(Clone, Debug, PartialEq, Eq)]
pub struct InitReport {
    /// What to say.
    pub message: String,
    /// The status to end with.
    pub code: i32,
}

/// What to say and which status to end with once the first process of a
/// container has come to its end without becoming the command: a status of
/// zero on `Ok`, of one on an error.
pub fn init_process(outcome: &Result<(), InitError>) -> (report: InitReport)
    ensures
        match *outcome {
            Ok(_) => report.message@ == "parent process init ok"@ && report.code == 0,
            Err(e) => report.message@ == "parent process init failed: "@ + InitError::message_of(
                e@,
            ) && report.code == 1,
        },
{
    match outcome {
        Ok(_) => InitReport { message: "parent process init ok".to_owned(), code: 0 },
        Err(e) => InitReport {
            message: followed_by("parent process init failed: ", e.message().as_str()),
            code: 1,
        },
    }
}

} // verus!
