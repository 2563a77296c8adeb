//! Where the runtime keeps its files. The paths are part of its contract with
//! the host: images, write layers and mount points live under `/root`, logs
//! under `/var/run/mydocker`.

use vstd::prelude::*;
use vstd::string::StringExecFns;
use crate::text::followed_by;

verus! {

/// The directory that holds the unpacked, read-only layer of an image.
pub open spec fn image_dir(image: Seq<char>) -> Seq<char> {
    "/root/"@ + image
}

/// The directory into which an image is unpacked, before it takes the name
/// of [`image_dir`].
pub open spec fn image_staging_dir(image: Seq<char>) -> Seq<char> {
    "/root/"@ + image + ".unpacking"@
}

/// The archive that an image is unpacked from.
pub open spec fn image_archive(image: Seq<char>) -> Seq<char> {
    "/root/"@ + image + ".tar"@
}

/// The private, writable layer of a container.
pub open spec fn write_layer_dir(container: Seq<char>) -> Seq<char> {
    "/root/writeLayer/"@ + container
}

/// The directory on which the union of a container's layers is mounted: the
/// container's root.
pub open spec fn mount_point_dir(container: Seq<char>) -> Seq<char> {
    "/root/mnt/"@ + container
}

/// The place of a volume inside a container, as the host sees it.
pub open spec fn volume_target(container: Seq<char>, inner: Seq<char>) -> Seq<char> {
    mount_point_dir(container) + "/"@ + inner
}

/// The option that names the branches of a union mount, the upper one first.
pub open spec fn union_option(upper: Seq<char>, lower: Seq<char>) -> Seq<char> {
    "dirs="@ + upper + ":"@ + lower
}

/// The directory that receives the output of a container without terminal.
pub open spec fn log_dir(container: Seq<char>) -> Seq<char> {
    "/var/run/mydocker/"@ + container + "/"@
}

/// The file that receives the output of a container without terminal.
pub open spec fn log_file(container: Seq<char>) -> Seq<char> {
    log_dir(container) + "container.log"@
}

/// The path of [`image_dir`].
pub fn image_dir_of(image: &str) -> (p: String)
    ensures
        p@ == image_dir(image@),
{
    followed_by("/root/", image)
}

/// The path of [`image_staging_dir`].
pub fn image_staging_dir_of(image: &str) -> (p: String)
    ensures
        p@ == image_staging_dir(image@),
{
    let mut p = followed_by("/root/", image);
    p.append(".unpacking");
    p
}

/// The path of [`image_archive`].
pub fn image_archive_of(image: &str) -> (p: String)
    ensures
        p@ == image_archive(image@),
{
    let mut p = followed_by("/root/", image);
    p.append(".tar");
    p
}

/// The path of [`write_layer_dir`].
pub fn write_layer_dir_of(container: &str) -> (p: String)
    ensures
        p@ == write_layer_dir(container@),
{
    followed_by("/root/writeLayer/", container)
}

/// The path of [`mount_point_dir`].
pub fn mount_point_dir_of(container: &str) -> (p: String)
    ensures
        p@ == mount_point_dir(container@),
{
    followed_by("/root/mnt/", container)
}

/// The path of [`volume_target`].
pub fn volume_target_of(container: &str, inner: &str) -> (p: String)
    ensures
        p@ == volume_target(container@, inner@),
{
    let mut p = mount_point_dir_of(container);
    p.append("/");
    p.append(inner);
    p
}

/// The text of [`union_option`].
pub fn union_option_of(upper: &str, lower: &str) -> (o: String)
    ensures
        o@ == union_option(upper@, lower@),
{
    let mut o = followed_by("dirs=", upper);
    o.append(":");
    o.append(lower);
    o
}

/// The path of [`log_dir`].
pub fn log_dir_of(container: &str) -> (p: String)
    ensures
        p@ == log_dir(container@),
{
    let mut p = followed_by("/var/run/mydocker/", container);
    p.append("/");
    p
}

/// The path of [`log_file`].
pub fn log_file_of(container: &str) -> (p: String)
    ensures
        p@ == log_file(container@),
{
    let mut p = log_dir_of(container);
    p.append("container.log");
    p
}

} // verus!
