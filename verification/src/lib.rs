//! A small container runtime, as a library that decides and a caller that
//! acts.
//!
//! A container is a process in namespaces of its own, on a root file system
//! that is the union of a read-only image layer and a private write layer,
//! under the limits of a control group. This library plans what that takes:
//! every function returns the steps to perform, or the next move of a
//! launch, from plain descriptions of the host. It touches nothing itself.
//!
//! - [`launch`] sequences a launch: build, start, limit, hand over the
//!   command, and for a container in the foreground wait and clear.
//! - [`container`] plans the file system of a container and prepares the
//!   command that starts it; [`command`] is its window on `unshare`.
//! - [`init`] is the first process inside the container.
//! - [`cgroup`] and [`subsystem`] plan the control group.
//! - [`plan`] holds the steps and their order, [`host`] a model of the host
//!   against which the plans are proved, [`layout`] the paths, [`text`] the
//!   handling of text.

pub mod cgroup;
pub mod command;
pub mod container;
pub mod host;
pub mod init;
pub mod launch;
pub mod layout;
pub mod plan;
pub mod subsystem;
pub mod text;
