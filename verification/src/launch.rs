//! The launch of a container, step by step: its file system is built, its
//! first process is started in namespaces of its own, the process is put
//! under its limits, and only then is it handed its command.
//!
//! The library decides each move from what the caller reports of the last
//! one; the caller performs the moves with the plans that the other modules
//! give.

use rand::Rng;
use vstd::prelude::*;
use vstd::utf8::{decode_utf8, encode_utf8, valid_utf8};
use crate::init::user_command;
use crate::subsystem::ResourceConfig;
use crate::text::{digit, is_space, join_texts, join_with, lemma_words_of_join, same_text};

verus! {

/// The number of digits of the identifier of a container.
pub const CONTAINER_ID_LENGTH: u32 = 10;

/// Why a launch is refused before anything is done.
#[derive(Clone, Copy, Debug, PartialEq, Eq, Structural)]
pub enum ConfigError {
    /// No command was given for the container.
    MissingCommand,
    /// Both a terminal and a detached run were asked for.
    TtyWithDetach,
}

impl ConfigError {
    /// What to say of the error.
    pub open spec fn message_of(self) -> Seq<char> {
        match self {
            ConfigError::MissingCommand => "Missing container command"@,
            ConfigError::TtyWithDetach => "ti and d paramter can not both provided"@,
        }
    }

    /// What to say of the error.
    pub fn message(&self) -> (m: String)
        ensures
            m@ == self.message_of(),
    {
        match self {
            ConfigError::MissingCommand => "Missing container command".to_owned(),
            ConfigError::TtyWithDetach => "ti and d paramter can not both provided".to_owned(),
        }
    }
}

/// What the program is called to do. The runtime calls its own program
/// again, and the first argument of a call selects the mode: this is all that
/// the process that launches a container and the ones it starts agree on
/// besides the control pipe.
#[derive(Clone, Copy, Debug, PartialEq, Eq, Structural)]
pub enum Mode {
    /// Launch a container. This is also what an unknown or missing first
    /// argument asks for.
    Run,
    /// Be the first process of a container (`init`).
    Init,
    /// Unpack an archive (`tar`).
    Tar,
    /// Mount (`mount`).
    Mount,
    /// Unmount (`unmount`).
    Unmount,
}

impl Mode {
    /// The mode that the first argument of a call selects.
    pub open spec fn named(word: Option<Seq<char>>) -> Mode {
        match word {
            None => Mode::Run,
            Some(w) => if w == "init"@ {
                Mode::Init
            } else if w == "tar"@ {
                Mode::Tar
            } else if w == "mount"@ {
                Mode::Mount
            } else if w == "unmount"@ {
                Mode::Unmount
            } else {
                Mode::Run
            },
        }
    }

    /// The mode that the first argument of a call selects.
    pub fn of(word: Option<&str>) -> (mode: Mode)
        ensures
            mode == Mode::named(
                match word {
                    Some(w) => Some(w@),
                    None => None,
                },
            ),
    {
        match word {
            None => Mode::Run,
            Some(w) => {
                if same_text(w, "init") {
                    Mode::Init
                } else if same_text(w, "tar") {
                    Mode::Tar
                } else if same_text(w, "mount") {
                    Mode::Mount
                } else if same_text(w, "unmount") {
                    Mode::Unmount
                } else {
                    Mode::Run
                }
            },
        }
    }

    /// The tool of the host that does the work of a mode, for the modes that
    /// are left to one.
    pub open spec fn tool_of(self) -> Option<Seq<char>> {
        match self {
            Mode::Tar => Some("tar"@),
            Mode::Mount => Some("mount"@),
            Mode::Unmount => Some("umount"@),
            _ => None,
        }
    }

    /// The tool of the host that does the work of the mode (see
    /// [`Mode::tool_of`]).
    pub fn tool(&self) -> (r: Option<String>)
        ensures
            match r {
                Some(name) => self.tool_of() == Some(name@),
                None => self.tool_of() is None,
            },
    {
        match self {
            Mode::Tar => Some("tar".to_owned()),
            Mode::Mount => Some("mount".to_owned()),
            Mode::Unmount => Some("umount".to_owned()),
            _ => None,
        }
    }
}

/// The words for a tool select the mode of that tool: called with the words
/// that ask for a step, the program unpacks, mounts or unmounts, and neither
/// launches a container nor becomes one.
pub proof fn lemma_tool_words_select_a_tool(step: crate::plan::StepView)
    requires
        crate::container::tool_words(step) is Some,
    ensures
        ({
            let words = crate::container::tool_words(step)->0;
            let mode = Mode::named(Some(words[0]));
            &&& mode.tool_of() is Some
            &&& step is Extract <==> mode == Mode::Tar
            &&& step is MountUnion || step is MountVolume <==> mode == Mode::Mount
            &&& step is Unmount <==> mode == Mode::Unmount
        }),
{
    reveal_strlit("init");
    reveal_strlit("tar");
    reveal_strlit("mount");
    reveal_strlit("unmount");
    assert("tar"@.len() == 3 && "init"@.len() == 4 && "mount"@.len() == 5 && "unmount"@.len()
        == 7);
    assert("tar"@[0] == 't' && "init"@[0] == 'i');
}

/// What a launch was asked for.
#[derive(Clone, Debug, PartialEq, Eq)]
pub struct RunOptions {
    /// Whether the container is run with a terminal, in the foreground.
    pub create_tty: bool,
    /// Whether the container is left to run on its own.
    pub detach: bool,
    /// The limits of the container.
    pub res_conf: ResourceConfig,
    /// The name of the container; empty where none was given.
    pub container_name: String,
    /// The volume parameter.
    pub volume: String,
    /// The network of the container.
    pub network: String,
    /// The variables given for the container.
    pub env_slice: Vec<(String, String)>,
    /// The port mapping.
    pub portmapping: String,
    /// The name of the image.
    pub image_name: String,
    /// The words of the command to run in the container.
    pub command: Vec<String>,
}

/// A number from `low` up to, but not including, `high`, drawn at random.
///
/// Calls `rand::thread_rng` and `rand::Rng::gen_range`, which panics unless
/// `low < high`. The contract claims that the number lies in that range; two
/// calls may give different numbers.
#[verifier::external_body]
fn random_in(low: u8, high: u8) -> (r: u8)
    requires
        low < high,
    ensures
        low <= r < high,
{
    rand::thread_rng().gen_range(low, high)
}

/// The digits `values`, each taken modulo ten, as a text.
pub open spec fn digits_text(values: Seq<u8>) -> Seq<char> {
    values.map_values(|v: u8| digit((v % 10) as int))
}

/// The text of the digits `values`, each taken modulo ten.
pub fn digit_string(values: &Vec<u8>) -> (text: String)
    ensures
        text@ == digits_text(values@),
{
    let mut text = String::new();
    let mut i: usize = 0;
    while i < values.len()
        invariant
            i <= values.len(),
            text@ == digits_text(values@.take(i as int)),
        decreases values.len() - i,
    {
        let d: u8 = values[i] % 10;
        text.push((48u8 + d) as char);
        proof {
            assert('0' as u8 == 48u8);
            assert(values@.take(i + 1) =~= values@.take(i as int).push(values@[i as int]));
            assert(text@ =~= digits_text(values@.take(i + 1)));
        }
        i += 1;
    }
    assert(values@.take(values.len() as int) =~= values@);
    text
}

/// Whether a text is made of decimal digits alone.
pub open spec fn all_digits(text: Seq<char>) -> bool {
    forall|i: int| 0 <= i < text.len() ==> '0' <= #[trigger] text[i] <= '9'
}

/// A text of `n` decimal digits drawn at random, to identify a container.
pub fn rand_string_bytes(n: u32) -> (text: String)
    ensures
        text@.len() == n,
        all_digits(text@),
{
    let mut values: Vec<u8> = Vec::new();
    let mut i: u32 = 0;
    while i < n
        invariant
            i <= n,
            values@.len() == i,
            forall|k: int| 0 <= k < values@.len() ==> values@[k] < 10,
        decreases n - i,
    {
        values.push(random_in(0, 10));
        i += 1;
    }
    let text = digit_string(&values);
    proof {
        assert forall|k: int| 0 <= k < text@.len() implies '0' <= #[trigger] text@[k] <= '9' by {
            assert(values@[k] < 10);
            assert(text@[k] == digit((values@[k] % 10) as int));
        }
    }
    text
}

/// The name under which a container goes: the one given, or its identifier
/// where none was given.
pub open spec fn identity(container_name: Seq<char>, container_id: Seq<char>) -> Seq<char> {
    if container_name.len() == 0 {
        container_id
    } else {
        container_name
    }
}

/// A new identifier for a container: [`CONTAINER_ID_LENGTH`] decimal digits
/// drawn at random.
pub fn container_id() -> (id: String)
    ensures
        id@.len() == CONTAINER_ID_LENGTH,
        all_digits(id@),
{
    rand_string_bytes(CONTAINER_ID_LENGTH)
}

/// The name under which a container goes (see [`identity`]).
pub fn container_identity(container_name: &str, container_id: &str) -> (name: String)
    ensures
        name@ == identity(container_name@, container_id@),
{
    if container_name.is_empty() {
        container_id.to_owned()
    } else {
        container_name.to_owned()
    }
}

/// The single message of the control pipe: the words of the command, joined
/// by spaces.
pub open spec fn command_message(command: Seq<Seq<char>>) -> Seq<char> {
    join_with(command, ' ')
}

/// The message that hands `command` to the first process of the container.
/// Its bytes are written to the control pipe, which is then closed.
pub fn command_line(command: &Vec<String>) -> (line: String)
    ensures
        line@ == command_message(command.deep_view()),
{
    join_texts(command, ' ')
}

/// The control pipe delivers the command.
///
/// Where the command has a word, no word is empty and none holds white
/// space, the words that the first process of the container reads from the
/// bytes of the message are the words of the command.
pub proof fn lemma_command_survives_the_pipe(command: Seq<Seq<char>>)
    requires
        command.len() > 0,
        forall|i: int| 0 <= i < command.len() ==> (#[trigger] command[i]).len() > 0,
        forall|i: int, j: int|
            0 <= i < command.len() && 0 <= j < command[i].len() ==> !is_space(
                #[trigger] command[i][j],
            ),
    ensures
        user_command(encode_utf8(command_message(command))) == Ok::<
            Seq<Seq<char>>,
            crate::init::InitErrorView,
        >(command),
{
    broadcast use vstd::utf8::group_utf8_lib;

    lemma_words_of_join(command);
    let line = command_message(command);
    assert(valid_utf8(encode_utf8(line)));
    assert(decode_utf8(encode_utf8(line)) == line);
}

/// How far a launch has come.
#[derive(Clone, Copy, Debug, PartialEq, Eq, Structural)]
pub enum Launch {
    /// Nothing was done yet.
    Idle,
    /// The file system of the container is being built.
    Building,
    /// The first process of the container is being started.
    Spawning,
    /// The limits of the container are being set.
    Limiting { pid: i32 },
    /// The process is being put under the limits.
    Attaching { pid: i32 },
    /// The command is being handed to the process.
    Sending { pid: i32 },
    /// The end of the process is being waited for.
    Waiting { pid: i32 },
    /// The control group is being given up.
    Releasing { pid: i32 },
    /// The file system of the container is being taken away.
    Clearing { pid: i32 },
    /// The launch is over.
    Done,
}

/// What the caller reports.
#[derive(Clone, Copy, Debug, PartialEq, Eq, Structural)]
pub enum Event {
    /// The launch is to begin.
    Begin,
    /// What was asked for has been done.
    Succeeded,
    /// The first process of the container runs, with this number.
    Spawned { pid: i32 },
    /// What was asked for could not be done.
    Failed,
}

/// What the caller is to do next. Where a move concerns the container's file
/// system, log or control group, it carries the name under which the
/// container goes.
#[derive(Clone, Debug, PartialEq, Eq)]
pub enum Action {
    /// Nothing: the launch is refused, and nothing was done.
    Refuse(ConfigError),
    /// Build the file system of the container `name`, and its log where it
    /// has no terminal.
    BuildWorkSpace { name: String },
    /// Start the first process of the container and report its number.
    Spawn,
    /// Set the limits of the control group `name`.
    SetLimits { name: String },
    /// Put the process into the control group `name`.
    Attach { name: String, pid: i32 },
    /// Write the command to the control pipe and close it.
    SendCommand { pid: i32 },
    /// Wait for the process to end.
    Wait { pid: i32 },
    /// Give the control group `name` up.
    RemoveLimits { name: String },
    /// Take the file system of the container `name` away.
    TearDown { name: String },
    /// Nothing: the launch has succeeded.
    Finish { pid: i32 },
    /// Nothing: the launch has failed at this point. The pipe is closed
    /// without a command, on which the process, if there is one, ends.
    GiveUp { at: Launch },
}

/// An [`Action`] with its texts as character sequences.
pub enum ActionView {
    Refuse(ConfigError),
    BuildWorkSpace { name: Seq<char> },
    Spawn,
    SetLimits { name: Seq<char> },
    Attach { name: Seq<char>, pid: i32 },
    SendCommand { pid: i32 },
    Wait { pid: i32 },
    RemoveLimits { name: Seq<char> },
    TearDown { name: Seq<char> },
    Finish { pid: i32 },
    GiveUp { at: Launch },
}

impl View for Action {
    type V = ActionView;

    open spec fn view(&self) -> ActionView {
        match *self {
            Action::Refuse(e) => ActionView::Refuse(e),
            Action::BuildWorkSpace { name } => ActionView::BuildWorkSpace { name: name@ },
            Action::Spawn => ActionView::Spawn,
            Action::SetLimits { name } => ActionView::SetLimits { name: name@ },
            Action::Attach { name, pid } => ActionView::Attach { name: name@, pid },
            Action::SendCommand { pid } => ActionView::SendCommand { pid },
            Action::Wait { pid } => ActionView::Wait { pid },
            Action::RemoveLimits { name } => ActionView::RemoveLimits { name: name@ },
            Action::TearDown { name } => ActionView::TearDown { name: name@ },
            Action::Finish { pid } => ActionView::Finish { pid },
            Action::GiveUp { at } => ActionView::GiveUp { at },
        }
    }
}

/// The name that a move carries, where it carries one.
pub open spec fn named(action: ActionView) -> Option<Seq<char>> {
    match action {
        ActionView::BuildWorkSpace { name } => Some(name),
        ActionView::SetLimits { name } => Some(name),
        ActionView::Attach { name, pid } => Some(name),
        ActionView::RemoveLimits { name } => Some(name),
        ActionView::TearDown { name } => Some(name),
        _ => None,
    }
}

/// The next state and the next thing to do, from the state and from what was
/// reported. `tty` and `detach` are the two ways to run that were asked for,
/// `words` is the number of words of the command, `name` the name under which
/// the container goes.
///
/// A launch without command, or with a terminal and detached at once, is
/// refused before anything is done. Else the file system is built, then the
/// process is started, then its limits are set, then it is put under them,
/// and then it is handed its command. With a terminal its end is waited for,
/// and the control group and the file system are taken away, whether or not
/// the former succeeds; without, the container is left to run. A failure
/// before that, or a report that was not asked for, ends the launch.
pub open spec fn next_move(
    state: Launch,
    event: Event,
    tty: bool,
    detach: bool,
    words: nat,
    name: Seq<char>,
) -> (Launch, ActionView) {
    match (state, event) {
        (Launch::Idle, Event::Begin) => if words == 0 {
            (Launch::Done, ActionView::Refuse(ConfigError::MissingCommand))
        } else if tty && detach {
            (Launch::Done, ActionView::Refuse(ConfigError::TtyWithDetach))
        } else {
            (Launch::Building, ActionView::BuildWorkSpace { name })
        },
        (Launch::Building, Event::Succeeded) => (Launch::Spawning, ActionView::Spawn),
        (Launch::Spawning, Event::Spawned { pid }) => (
            Launch::Limiting { pid },
            ActionView::SetLimits { name },
        ),
        (Launch::Limiting { pid }, Event::Succeeded) => (
            Launch::Attaching { pid },
            ActionView::Attach { name, pid },
        ),
        (Launch::Attaching { pid }, Event::Succeeded) => (
            Launch::Sending { pid },
            ActionView::SendCommand { pid },
        ),
        (Launch::Sending { pid }, Event::Succeeded) => if tty {
            (Launch::Waiting { pid }, ActionView::Wait { pid })
        } else {
            (Launch::Done, ActionView::Finish { pid })
        },
        (Launch::Waiting { pid }, Event::Succeeded) => (
            Launch::Releasing { pid },
            ActionView::RemoveLimits { name },
        ),
        (Launch::Releasing { pid }, Event::Succeeded) => (
            Launch::Clearing { pid },
            ActionView::TearDown { name },
        ),
        (Launch::Releasing { pid }, Event::Failed) => (
            Launch::Clearing { pid },
            ActionView::TearDown { name },
        ),
        (Launch::Clearing { pid }, Event::Succeeded) => (Launch::Done, ActionView::Finish { pid }),
        (Launch::Clearing { pid }, Event::Failed) => (Launch::Done, ActionView::Finish { pid }),
        _ => (Launch::Done, ActionView::GiveUp { at: state }),
    }
}

/// Decides what the launch does next (see [`next_move`]). The caller starts
/// with [`Launch::Idle`] and [`Event::Begin`], does what it is told, and comes
/// back with the state it was given and the report of what happened, until it
/// is told to do nothing. `container_id` is the identifier of the container
/// (see [`container_id`]), the same throughout a launch: the container goes
/// under the name that `options` give, or under this identifier where they
/// give none.
pub fn run(state: Launch, event: Event, options: &RunOptions, container_id: &str) -> (r: (
    Launch,
    Action,
))
    ensures
        (r.0, r.1@) == next_move(
            state,
            event,
            options.create_tty,
            options.detach,
            options.command@.len(),
            identity(options.container_name@, container_id@),
        ),
{
    let name = container_identity(options.container_name.as_str(), container_id);
    match (state, event) {
        (Launch::Idle, Event::Begin) => {
            if options.command.len() == 0 {
                (Launch::Done, Action::Refuse(ConfigError::MissingCommand))
            } else if options.create_tty && options.detach {
                (Launch::Done, Action::Refuse(ConfigError::TtyWithDetach))
            } else {
                (Launch::Building, Action::BuildWorkSpace { name })
            }
        },
        (Launch::Building, Event::Succeeded) => (Launch::Spawning, Action::Spawn),
        (Launch::Spawning, Event::Spawned { pid }) => (
            Launch::Limiting { pid },
            Action::SetLimits { name },
        ),
        (Launch::Limiting { pid }, Event::Succeeded) => (
            Launch::Attaching { pid },
            Action::Attach { name, pid },
        ),
        (Launch::Attaching { pid }, Event::Succeeded) => (
            Launch::Sending { pid },
            Action::SendCommand { pid },
        ),
        (Launch::Sending { pid }, Event::Succeeded) => {
            if options.create_tty {
                (Launch::Waiting { pid }, Action::Wait { pid })
            } else {
                (Launch::Done, Action::Finish { pid })
            }
        },
        (Launch::Waiting { pid }, Event::Succeeded) => (
            Launch::Releasing { pid },
            Action::RemoveLimits { name },
        ),
        (Launch::Releasing { pid }, Event::Succeeded) => (
            Launch::Clearing { pid },
            Action::TearDown { name },
        ),
        (Launch::Releasing { pid }, Event::Failed) => (
            Launch::Clearing { pid },
            Action::TearDown { name },
        ),
        (Launch::Clearing { pid }, Event::Succeeded) => (Launch::Done, Action::Finish { pid }),
        (Launch::Clearing { pid }, Event::Failed) => (Launch::Done, Action::Finish { pid }),
        _ => (Launch::Done, Action::GiveUp { at: state }),
    }
}

/// The state of a launch after the reports `events`, the first of which
/// begins it, and what the caller was told to do on each of them.
pub open spec fn course(
    events: Seq<Event>,
    tty: bool,
    detach: bool,
    words: nat,
    name: Seq<char>,
) -> (Launch, Seq<ActionView>)
    decreases events.len(),
{
    if events.len() == 0 {
        (Launch::Idle, Seq::empty())
    } else {
        let before = course(events.drop_last(), tty, detach, words, name);
        let moved = next_move(before.0, events.last(), tty, detach, words, name);
        (moved.0, before.1.push(moved.1))
    }
}

/// Whether the move at `at` came in its turn: the command is handed to the
/// process only directly after the process has been put under the limits,
/// with success, which was asked for only directly after the limits had been
/// set, with success, for the process that was reported as started; the
/// process is started only directly after the file system has been built,
/// with success; a launch is refused only as its first move; the file system
/// is taken away only with a terminal. A move that carries a name carries
/// `name`.
pub open spec fn in_turn(
    events: Seq<Event>,
    actions: Seq<ActionView>,
    tty: bool,
    name: Seq<char>,
    at: int,
) -> bool {
    &&& named(actions[at]) matches Some(n) ==> n == name
    &&& match actions[at] {
        ActionView::SendCommand { pid } => {
            &&& at >= 3
            &&& actions[at - 1] == ActionView::Attach { name, pid }
            &&& events[at] == Event::Succeeded
            &&& actions[at - 2] == ActionView::SetLimits { name }
            &&& events[at - 1] == Event::Succeeded
            &&& actions[at - 3] == ActionView::Spawn
            &&& events[at - 2] == Event::Spawned { pid }
        },
        ActionView::Spawn => at >= 1 && actions[at - 1] == (ActionView::BuildWorkSpace { name })
            && events[at] == Event::Succeeded,
        ActionView::Refuse(_) => at == 0,
        ActionView::TearDown { name } => tty,
        _ => true,
    }
}

/// What the state of a launch tells of its last moves.
pub open spec fn settled(
    events: Seq<Event>,
    state: Launch,
    actions: Seq<ActionView>,
    tty: bool,
    name: Seq<char>,
) -> bool {
    let n = actions.len() as int;
    &&& actions.len() == events.len()
    &&& state == Launch::Idle <==> n == 0
    &&& match state {
        Launch::Building => n >= 1 && actions[n - 1] == (ActionView::BuildWorkSpace { name }),
        Launch::Spawning => n >= 2 && actions[n - 1] == ActionView::Spawn,
        Launch::Limiting { pid } => n >= 3 && actions[n - 1] == (ActionView::SetLimits { name })
            && actions[n - 2] == ActionView::Spawn && events[n - 1] == (Event::Spawned { pid }),
        Launch::Attaching { pid } => n >= 4 && actions[n - 1] == (ActionView::Attach {
            name,
            pid,
        }) && actions[n - 2] == (ActionView::SetLimits { name }) && actions[n - 3]
            == ActionView::Spawn && events[n - 1] == Event::Succeeded && events[n - 2] == (
        Event::Spawned { pid }),
        Launch::Waiting { pid } => tty,
        Launch::Releasing { pid } => tty,
        Launch::Clearing { pid } => tty,
        _ => true,
    }
}

/// No command before the limits hold.
///
/// In every course of a launch, whatever is reported, every move comes in
/// its turn (see [`in_turn`]), and the file system, the log and the control
/// group are those of the one name under which the container goes.
pub proof fn lemma_limits_before_command(
    events: Seq<Event>,
    tty: bool,
    detach: bool,
    words: nat,
    name: Seq<char>,
)
    ensures
        course(events, tty, detach, words, name).1.len() == events.len(),
        settled(
            events,
            course(events, tty, detach, words, name).0,
            course(events, tty, detach, words, name).1,
            tty,
            name,
        ),
        forall|at: int|
            0 <= at < events.len() ==> in_turn(
                events,
                course(events, tty, detach, words, name).1,
                tty,
                name,
                at,
            ),
    decreases events.len(),
{
    if events.len() > 0 {
        let front = events.drop_last();
        lemma_limits_before_command(front, tty, detach, words, name);
        let before = course(front, tty, detach, words, name).0;
        let done = course(front, tty, detach, words, name).1;
        let moved = next_move(before, events.last(), tty, detach, words, name);
        let actions = course(events, tty, detach, words, name).1;
        let n = done.len() as int;
        assert(actions == done.push(moved.1));
        assert(settled(front, before, done, tty, name));
        assert forall|at: int| 0 <= at < events.len() implies in_turn(
            events,
            actions,
            tty,
            name,
            at,
        ) by {
            if at < n {
                assert(in_turn(front, done, tty, name, at));
                assert(actions[at] == done[at]);
                assert(events[at] == front[at]);
                if at >= 1 {
                    assert(actions[at - 1] == done[at - 1]);
                    assert(events[at - 1] == front[at - 1]);
                }
                if at >= 2 {
                    assert(actions[at - 2] == done[at - 2]);
                    assert(events[at - 2] == front[at - 2]);
                }
                if at >= 3 {
                    assert(actions[at - 3] == done[at - 3]);
                }
            } else {
                assert(actions[n] == moved.1);
                assert(events[n] == events.last());
                if n >= 1 {
                    assert(actions[n - 1] == done[n - 1]);
                    assert(events[n - 1] == front[n - 1]);
                }
                if n >= 2 {
                    assert(actions[n - 2] == done[n - 2]);
                    assert(events[n - 2] == front[n - 2]);
                }
                if n >= 3 {
                    assert(actions[n - 3] == done[n - 3]);
                }
            }
        }
        assert(settled(events, moved.0, actions, tty, name)) by {
            if n >= 1 {
                assert(actions[n - 1] == done[n - 1]);
                assert(events[n - 1] == front[n - 1]);
            }
            if n >= 2 {
                assert(actions[n - 2] == done[n - 2]);
            }
        }
    }
}

} // verus!
