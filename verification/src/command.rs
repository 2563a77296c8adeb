//! The command that starts a container, as the crate `unshare` holds it.
//!
//! A `unshare::Command` is opaque here. What it holds is named by the
//! functions below, and each builder that the runtime uses is called through
//! a wrapper whose contract says, over these names, what the builder does.
//! None of these contracts is proved: they restate the source of `unshare`.

use vstd::prelude::*;

verus! {

/// Makes `unshare::Command` known as an opaque type.
#[verifier::external_type_specification]
#[verifier::external_body]
pub struct ExCommand(unshare::Command);

/// A namespace that a new process can have for itself.
#[derive(Clone, Copy, Debug, PartialEq, Eq, Structural)]
pub enum Namespace {
    Mount,
    Uts,
    Ipc,
    User,
    Pid,
    Net,
    Cgroup,
}

/// The file that the command executes.
pub uninterp spec fn command_program(cmd: unshare::Command) -> Seq<char>;

/// The arguments of the command, the one that names the program included.
pub uninterp spec fn command_args(cmd: unshare::Command) -> Seq<Seq<char>>;

/// Whether the command leaves the environment of the new process to be the
/// one of the process that starts it.
pub uninterp spec fn command_inherits_env(cmd: unshare::Command) -> bool;

/// The environment that the command holds for the new process. It holds none
/// while it inherits.
pub uninterp spec fn command_env(cmd: unshare::Command) -> Map<Seq<char>, Seq<char>>;

/// The namespaces that the new process does not share with the one that
/// starts it.
pub uninterp spec fn command_namespaces(cmd: unshare::Command) -> Set<Namespace>;

/// The descriptors of the new process that are the reading ends of pipes
/// whose writing ends stay with the process that starts it.
pub uninterp spec fn command_inbound_pipes(cmd: unshare::Command) -> Set<int>;

/// The working directory that the command gives the new process; none while
/// the new process is left in the directory of the process that starts it.
pub uninterp spec fn command_work_dir(cmd: unshare::Command) -> Option<Seq<char>>;

/// The command as a user would type it, for messages: a text that depends on
/// the program and the arguments alone.
pub uninterp spec fn short_rendering(program: Seq<char>, args: Seq<Seq<char>>) -> Seq<char>;

/// The environment without variables.
pub open spec fn no_variables() -> Map<Seq<char>, Seq<char>> {
    Map::empty()
}

/// No namespace.
pub open spec fn no_namespaces() -> Set<Namespace> {
    Set::empty()
}

/// No descriptor.
pub open spec fn no_pipes() -> Set<int> {
    Set::empty()
}

/// Whether a text can be handed to the operating system as one argument: it
/// holds no NUL.
pub open spec fn is_c_text(s: Seq<char>) -> bool {
    !s.contains('\0')
}

/// A command for the program `program`.
///
/// Calls `unshare::Command::new`, which panics on a NUL in `program`. The
/// contract claims that the new command executes `program` with `program` as
/// its only argument, inherits the environment, holds no variable of its own,
/// unshares no namespace, has no pipe besides the standard streams and sets
/// no working directory.
#[verifier::external_body]
pub(crate) fn command_new(program: &str) -> (cmd: unshare::Command)
    requires
        is_c_text(program@),
    ensures
        command_program(cmd) == program@,
        command_args(cmd) == seq![program@],
        command_inherits_env(cmd),
        command_env(cmd) == no_variables(),
        command_namespaces(cmd) == no_namespaces(),
        command_inbound_pipes(cmd) == no_pipes(),
        command_work_dir(cmd) is None,
{
    unshare::Command::new(program)
}

/// Adds an argument.
///
/// Calls `unshare::Command::arg`, which panics on a NUL in `arg`. The
/// contract claims that `arg` is added behind the arguments and that nothing
/// else changes.
#[verifier::external_body]
pub(crate) fn command_arg(cmd: &mut unshare::Command, arg: &str)
    requires
        is_c_text(arg@),
    ensures
        command_args(*final(cmd)) == command_args(*old(cmd)).push(arg@),
        command_program(*final(cmd)) == command_program(*old(cmd)),
        command_inherits_env(*final(cmd)) == command_inherits_env(*old(cmd)),
        command_env(*final(cmd)) == command_env(*old(cmd)),
        command_namespaces(*final(cmd)) == command_namespaces(*old(cmd)),
        command_inbound_pipes(*final(cmd)) == command_inbound_pipes(*old(cmd)),
        command_work_dir(*final(cmd)) == command_work_dir(*old(cmd)),
{
    cmd.arg(arg);
}

/// Empties the environment of the new process.
///
/// Calls `unshare::Command::env_clear`. The contract claims that the command
/// no longer inherits, holds no variable, and that nothing else changes.
#[verifier::external_body]
pub(crate) fn command_env_clear(cmd: &mut unshare::Command)
    ensures
        !command_inherits_env(*final(cmd)),
        command_env(*final(cmd)) == no_variables(),
        command_program(*final(cmd)) == command_program(*old(cmd)),
        command_args(*final(cmd)) == command_args(*old(cmd)),
        command_namespaces(*final(cmd)) == command_namespaces(*old(cmd)),
        command_inbound_pipes(*final(cmd)) == command_inbound_pipes(*old(cmd)),
        command_work_dir(*final(cmd)) == command_work_dir(*old(cmd)),
{
    cmd.env_clear();
}

/// Sets a variable of the environment of the new process.
///
/// Calls `unshare::Command::env`. On a command that inherits, that function
/// first copies the environment of the running process, which no contract can
/// state: such a command is left out. The contract claims that on the others
/// the variable is set, replacing an earlier value, and that nothing else
/// changes.
#[verifier::external_body]
pub(crate) fn command_env_set(cmd: &mut unshare::Command, key: &str, value: &str)
    requires
        !command_inherits_env(*old(cmd)),
    ensures
        !command_inherits_env(*final(cmd)),
        command_env(*final(cmd)) == command_env(*old(cmd)).insert(key@, value@),
        command_program(*final(cmd)) == command_program(*old(cmd)),
        command_args(*final(cmd)) == command_args(*old(cmd)),
        command_namespaces(*final(cmd)) == command_namespaces(*old(cmd)),
        command_inbound_pipes(*final(cmd)) == command_inbound_pipes(*old(cmd)),
        command_work_dir(*final(cmd)) == command_work_dir(*old(cmd)),
{
    cmd.env(key, value);
}

/// Gives the new process a namespace of its own.
///
/// Calls `unshare::Command::unshare` with the one namespace. The contract
/// claims that the namespace is added to those that are not shared and that
/// nothing else changes.
#[verifier::external_body]
pub(crate) fn command_unshare(cmd: &mut unshare::Command, namespace: Namespace)
    ensures
        command_namespaces(*final(cmd)) == command_namespaces(*old(cmd)).insert(namespace),
        command_program(*final(cmd)) == command_program(*old(cmd)),
        command_args(*final(cmd)) == command_args(*old(cmd)),
        command_inherits_env(*final(cmd)) == command_inherits_env(*old(cmd)),
        command_env(*final(cmd)) == command_env(*old(cmd)),
        command_inbound_pipes(*final(cmd)) == command_inbound_pipes(*old(cmd)),
        command_work_dir(*final(cmd)) == command_work_dir(*old(cmd)),
{
    cmd.unshare(
        &[
            match namespace {
                Namespace::Mount => unshare::Namespace::Mount,
                Namespace::Uts => unshare::Namespace::Uts,
                Namespace::Ipc => unshare::Namespace::Ipc,
                Namespace::User => unshare::Namespace::User,
                Namespace::Pid => unshare::Namespace::Pid,
                Namespace::Net => unshare::Namespace::Net,
                Namespace::Cgroup => unshare::Namespace::Cgroup,
            },
        ],
    );
}

/// Gives the new process the reading end of a pipe as its descriptor `fd`;
/// the writing end stays with the process that starts it.
///
/// Calls `unshare::Command::file_descriptor` with `unshare::Fd::piped_read`;
/// the former panics on a descriptor below 3. The contract claims that `fd`
/// is added to the inbound pipes and that nothing else changes.
#[verifier::external_body]
pub(crate) fn command_pipe_in(cmd: &mut unshare::Command, fd: i32)
    requires
        fd > 2,
    ensures
        command_inbound_pipes(*final(cmd)) == command_inbound_pipes(*old(cmd)).insert(fd as int),
        command_program(*final(cmd)) == command_program(*old(cmd)),
        command_args(*final(cmd)) == command_args(*old(cmd)),
        command_inherits_env(*final(cmd)) == command_inherits_env(*old(cmd)),
        command_env(*final(cmd)) == command_env(*old(cmd)),
        command_namespaces(*final(cmd)) == command_namespaces(*old(cmd)),
        command_work_dir(*final(cmd)) == command_work_dir(*old(cmd)),
{
    cmd.file_descriptor(fd, unshare::Fd::piped_read());
}

/// Sets the working directory of the new process.
///
/// Calls `unshare::Command::current_dir`, which panics on a NUL in `dir`. The
/// contract claims that the command then holds `dir` as the working directory
/// and that nothing else changes.
#[verifier::external_body]
pub(crate) fn command_current_dir(cmd: &mut unshare::Command, dir: &str)
    requires
        is_c_text(dir@),
    ensures
        command_work_dir(*final(cmd)) == Some(dir@),
        command_program(*final(cmd)) == command_program(*old(cmd)),
        command_args(*final(cmd)) == command_args(*old(cmd)),
        command_inherits_env(*final(cmd)) == command_inherits_env(*old(cmd)),
        command_env(*final(cmd)) == command_env(*old(cmd)),
        command_namespaces(*final(cmd)) == command_namespaces(*old(cmd)),
        command_inbound_pipes(*final(cmd)) == command_inbound_pipes(*old(cmd)),
{
    cmd.current_dir(dir);
}

/// The command as a user would type it, for messages.
///
/// Calls `unshare::Command::display` with `unshare::Style::short` and formats
/// the result. The contract claims that the text depends on the program and
/// the arguments of the command alone.
#[verifier::external_body]
pub fn cmd_show(cmd: &unshare::Command) -> (text: String)
    ensures
        text@ == short_rendering(command_program(*cmd), command_args(*cmd)),
{
    format!("{}", cmd.display(&unshare::Style::short()))
}

/// The command with all that it holds, for the search of an error.
///
/// Calls `unshare::Command::display` with `unshare::Style::debug` and formats
/// the result. The text lists the environment in an order that differs from
/// run to run: nothing is claimed of it.
#[verifier::external_body]
pub fn cmd_debug(cmd: &unshare::Command) -> (text: String) {
    format!("{}", cmd.display(&unshare::Style::debug()))
}

} // verus!
