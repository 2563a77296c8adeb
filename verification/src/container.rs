//! The container's side of a launch: its layered root file system, the
//! command that starts it in its own namespaces, and what it does first once
//! it runs there.

use vstd::prelude::*;
use vstd::string::StringExecFns;
pub use crate::command::{cmd_debug, cmd_show};
use crate::command::{
    command_arg, command_args, command_current_dir, command_env, command_env_clear,
    command_env_set, command_inbound_pipes, command_inherits_env, command_namespaces,
    command_new, command_pipe_in, command_program, command_unshare, command_work_dir,
    no_namespaces, no_pipes, no_variables, short_rendering, Namespace,
};
use crate::layout::{
    image_archive, image_archive_of, image_dir, image_dir_of, image_staging_dir,
    image_staging_dir_of, log_dir, log_dir_of, log_file,
    log_file_of, mount_point_dir, mount_point_dir_of, union_option, union_option_of,
    volume_target, volume_target_of, write_layer_dir, write_layer_dir_of,
};
use crate::plan::{
    all_vital, lemma_vital_plan_stops_at_failure, lenient, performs, reaches, vital, Plan,
    PlannedView, Step, StepView,
};
use crate::text::{
    holds_char, join_texts, join_with, lemma_join_front, lemma_join_split,
    lemma_pieces_hold_no_separator, lemma_pieces_nonempty, lemma_split_join, split, split_on,
    Separator,
};

verus! {

/// Permissions of the directory of an image layer.
pub const IMAGE_LAYER_MODE: u32 = 0o622;

/// Permissions of the directories that a container writes to.
pub const OPEN_MODE: u32 = 0o777;

/// A host directory and the place inside the container where it is to appear.
#[derive(Clone, Debug, PartialEq, Eq)]
pub struct VolumeBinding {
    pub host: String,
    pub inner: String,
}

/// A [`VolumeBinding`] with its texts as character sequences.
pub struct Binding {
    pub host: Seq<char>,
    pub inner: Seq<char>,
}

impl View for VolumeBinding {
    type V = Binding;

    open spec fn view(&self) -> Binding {
        Binding { host: self.host@, inner: self.inner@ }
    }
}

/// What a volume parameter asks for: a binding where it is made of exactly
/// two parts around one colon, neither of them empty; nothing otherwise.
pub open spec fn binding_of(volume: Seq<char>) -> Option<Binding> {
    let parts = split_on(volume, ':');
    if parts.len() == 2 && parts[0].len() > 0 && parts[1].len() > 0 {
        Some(Binding { host: parts[0], inner: parts[1] })
    } else {
        None
    }
}

/// What became of a volume parameter.
#[derive(Clone, Debug, PartialEq, Eq)]
pub enum VolumeUse {
    /// The parameter was empty: no volume was asked for.
    Absent,
    /// The volume is part of the plan.
    Bound(VolumeBinding),
    /// The parameter is not of the form `host:inner`. The plan goes on
    /// without a volume; the caller may say so.
    Malformed,
}

impl VolumeUse {
    /// What becomes of the volume parameter `volume`.
    pub open spec fn of(volume: Seq<char>) -> VolumeUseView {
        if volume.len() == 0 {
            VolumeUseView::Absent
        } else {
            match binding_of(volume) {
                Some(b) => VolumeUseView::Bound(b),
                None => VolumeUseView::Malformed,
            }
        }
    }
}

/// A [`VolumeUse`] with its texts as character sequences.
pub enum VolumeUseView {
    Absent,
    Bound(Binding),
    Malformed,
}

impl View for VolumeUse {
    type V = VolumeUseView;

    open spec fn view(&self) -> VolumeUseView {
        match *self {
            VolumeUse::Absent => VolumeUseView::Absent,
            VolumeUse::Bound(b) => VolumeUseView::Bound(b@),
            VolumeUse::Malformed => VolumeUseView::Malformed,
        }
    }
}

/// Reads a volume parameter (see [`binding_of`]).
pub fn parse_volume(volume: &str) -> (r: Option<VolumeBinding>)
    ensures
        r is Some <==> binding_of(volume@) is Some,
        r matches Some(b) ==> Some(b@) == binding_of(volume@),
{
    let mut parts = split(volume, ':');
    if parts.len() == 2 && !parts[0].as_str().is_empty() && !parts[1].as_str().is_empty() {
        let inner = parts.pop().unwrap();
        let host = parts.pop().unwrap();
        Some(VolumeBinding { host, inner })
    } else {
        None
    }
}

/// The steps that provide the read-only layer of an image: none where its
/// directory is there already. Else the image's archive is unpacked into a
/// directory beside it, which takes the name of the layer only once the
/// unpacking has succeeded: a layer that is there is whole, and an unpacking
/// that failed is done again by the next launch.
pub open spec fn readonly_layer_plan(image: Seq<char>, present: bool) -> Seq<PlannedView> {
    if present {
        Seq::empty()
    } else {
        seq![
            vital(StepView::CreateDir { path: image_staging_dir(image), mode: IMAGE_LAYER_MODE }),
            vital(
                StepView::Extract {
                    archive: image_archive(image),
                    into: image_staging_dir(image),
                },
            ),
            vital(StepView::Rename { from: image_staging_dir(image), to: image_dir(image) }),
        ]
    }
}

/// The step that provides the write layer of a container.
pub open spec fn write_layer_plan(container: Seq<char>) -> Seq<PlannedView> {
    seq![vital(StepView::CreateDir { path: write_layer_dir(container), mode: OPEN_MODE })]
}

/// The steps that provide the root of a container: its directory, and on it
/// the union of the container's write layer, which is searched first and takes
/// the writes, and the image's layer.
pub open spec fn mount_point_plan(container: Seq<char>, image: Seq<char>) -> Seq<PlannedView> {
    seq![
        vital(StepView::CreateDir { path: mount_point_dir(container), mode: OPEN_MODE }),
        vital(
            StepView::MountUnion {
                upper: write_layer_dir(container),
                lower: image_dir(image),
                target: mount_point_dir(container),
            },
        ),
    ]
}

/// The steps that bring a host directory into a container: the directory on
/// the host, its place below the container's root, and the mount.
pub open spec fn volume_plan(binding: Binding, container: Seq<char>) -> Seq<PlannedView> {
    seq![
        vital(StepView::CreateDir { path: binding.host, mode: OPEN_MODE }),
        vital(
            StepView::CreateDir { path: volume_target(container, binding.inner), mode: OPEN_MODE },
        ),
        vital(
            StepView::MountVolume {
                source: binding.host,
                target: volume_target(container, binding.inner),
            },
        ),
    ]
}

/// The steps for the volume that a volume parameter asks for, if any.
pub open spec fn optional_volume_plan(volume: Seq<char>, container: Seq<char>) -> Seq<
    PlannedView,
> {
    match binding_of(volume) {
        Some(b) => volume_plan(b, container),
        None => Seq::empty(),
    }
}

/// The steps that build the file system of a container: the image's layer,
/// the write layer, the union of the two, and the volume if one is asked for.
/// After the first failure nothing more is done.
pub open spec fn work_space_plan(
    volume: Seq<char>,
    image: Seq<char>,
    container: Seq<char>,
    image_present: bool,
) -> Seq<PlannedView> {
    readonly_layer_plan(image, image_present) + write_layer_plan(container) + mount_point_plan(
        container,
        image,
    ) + optional_volume_plan(volume, container)
}

/// The step that takes a volume out of a container.
pub open spec fn delete_volume_plan(binding: Binding, container: Seq<char>) -> Seq<PlannedView> {
    seq![lenient(StepView::Unmount { target: volume_target(container, binding.inner) }, 0)]
}

/// The steps that take away the root of a container. The directory is only
/// removed once nothing is mounted on it any more.
pub open spec fn delete_mount_point_plan(container: Seq<char>) -> Seq<PlannedView> {
    seq![
        lenient(StepView::Unmount { target: mount_point_dir(container) }, 1),
        lenient(StepView::RemoveTree { path: mount_point_dir(container) }, 0),
    ]
}

/// The step that takes away the write layer of a container.
pub open spec fn delete_write_layer_plan(container: Seq<char>) -> Seq<PlannedView> {
    seq![lenient(StepView::RemoveTree { path: write_layer_dir(container) }, 0)]
}

/// The steps for the volume that a volume parameter had asked for, if any.
pub open spec fn optional_delete_volume_plan(volume: Seq<char>, container: Seq<char>) -> Seq<
    PlannedView,
> {
    match binding_of(volume) {
        Some(b) => delete_volume_plan(b, container),
        None => Seq::empty(),
    }
}

/// The steps that take the file system of a container away again, in the
/// reverse order of its building: the volume, the root, the write layer. The
/// image's layer stays. A failure does not keep the later parts from being
/// tried.
pub open spec fn delete_work_space_plan(volume: Seq<char>, container: Seq<char>) -> Seq<
    PlannedView,
> {
    optional_delete_volume_plan(volume, container) + delete_mount_point_plan(container)
        + delete_write_layer_plan(container)
}

/// A volume parameter asks for the binding of `host` to `inner` exactly where
/// it is `host`, a colon and `inner`, with both parts non-empty and free of
/// colons.
pub proof fn lemma_binding_is_host_colon_inner(volume: Seq<char>, binding: Binding)
    ensures
        binding_of(volume) == Some(binding) <==> {
            &&& volume == binding.host.push(':') + binding.inner
            &&& binding.host.len() > 0
            &&& binding.inner.len() > 0
            &&& !binding.host.contains(':')
            &&& !binding.inner.contains(':')
        },
{
    let parts = split_on(volume, ':');
    let pair = seq![binding.host, binding.inner];
    assert(join_with(pair, ':') =~= binding.host.push(':') + binding.inner) by {
        reveal_with_fuel(join_with, 3);
        assert(pair.drop_last() =~= seq![binding.host]);
    }
    if binding_of(volume) == Some(binding) {
        lemma_join_split(volume, ':');
        lemma_pieces_hold_no_separator(volume, Separator::Char(':'));
        assert(parts =~= pair);
        assert forall|j: int| 0 <= j < binding.host.len() implies binding.host[j] != ':' by {
            assert(parts[0][j] != ':');
        }
        assert forall|j: int| 0 <= j < binding.inner.len() implies binding.inner[j] != ':' by {
            assert(parts[1][j] != ':');
        }
    }
    if volume == binding.host.push(':') + binding.inner && binding.host.len() > 0
        && binding.inner.len() > 0 && !binding.host.contains(':') && !binding.inner.contains(
        ':',
    ) {
        assert forall|i: int, j: int|
            0 <= i < pair.len() && 0 <= j < pair[i].len() implies #[trigger] pair[i][j]
            != ':' by {
            if i == 0 {
                assert(binding.host.contains(pair[i][j]));
            } else {
                assert(binding.inner.contains(pair[i][j]));
            }
        }
        lemma_split_join(pair, ':');
    }
}

/// A malformed volume parameter does no harm.
///
/// For a parameter without colon, or one that begins or ends with a colon
/// (a side is empty), the plan is the plan without volume: it holds no volume
/// mount, and so does the plan that takes the file system away. Where the
/// parameter is not empty, it is reported as malformed.
pub proof fn lemma_malformed_volume_is_left_out(
    volume: Seq<char>,
    image: Seq<char>,
    container: Seq<char>,
    image_present: bool,
)
    requires
        !volume.contains(':') || volume.first() == ':' || volume.last() == ':',
    ensures
        binding_of(volume) is None,
        work_space_plan(volume, image, container, image_present) == work_space_plan(
            Seq::empty(),
            image,
            container,
            image_present,
        ),
        forall|i: int|
            0 <= i < work_space_plan(volume, image, container, image_present).len()
                ==> !(work_space_plan(volume, image, container, image_present)[i].step
                is MountVolume),
        delete_work_space_plan(volume, container) == delete_work_space_plan(
            Seq::empty(),
            container,
        ),
        volume.len() > 0 ==> VolumeUse::of(volume) == VolumeUseView::Malformed,
{
    if let Some(binding) = binding_of(volume) {
        lemma_binding_is_host_colon_inner(volume, binding);
        let at = binding.host.len() as int;
        assert(volume[at] == ':');
        assert(volume.first() == binding.host[0]);
        assert(binding.host.contains(binding.host[0]));
        assert(volume.last() == binding.inner.last());
        assert(binding.inner.contains(binding.inner.last()));
        assert(false);
    }
    assert(split_on(Seq::<char>::empty(), ':').len() == 1);
    assert(binding_of(Seq::<char>::empty()) is None);
}

/// The file system of a container that is to be built.
#[derive(Clone, Debug, PartialEq, Eq)]
pub struct WorkSpace {
    /// The steps that build it.
    pub plan: Plan,
    /// What became of the volume parameter.
    pub volume: VolumeUse,
}

/// Plans the read-only layer of the image `image_name`. `image_present` says
/// whether the layer's directory exists.
pub fn create_readonly_layer(image_name: &str, image_present: bool) -> (plan: Plan)
    ensures
        plan@ == readonly_layer_plan(image_name@, image_present),
{
    let mut plan = Plan::new();
    if !image_present {
        plan.vital(
            Step::CreateDir { path: image_staging_dir_of(image_name), mode: IMAGE_LAYER_MODE },
        );
        plan.vital(
            Step::Extract {
                archive: image_archive_of(image_name),
                into: image_staging_dir_of(image_name),
            },
        );
        plan.vital(
            Step::Rename { from: image_staging_dir_of(image_name), to: image_dir_of(image_name) },
        );
    }
    plan
}

/// Plans the write layer of the container `container_name`.
pub fn create_write_layer(container_name: &str) -> (plan: Plan)
    ensures
        plan@ == write_layer_plan(container_name@),
{
    let mut plan = Plan::new();
    plan.vital(Step::CreateDir { path: write_layer_dir_of(container_name), mode: OPEN_MODE });
    plan
}

/// Plans the root of the container `container_name` over the image
/// `image_name`.
pub fn create_mount_point(container_name: &str, image_name: &str) -> (plan: Plan)
    ensures
        plan@ == mount_point_plan(container_name@, image_name@),
{
    let mut plan = Plan::new();
    plan.vital(Step::CreateDir { path: mount_point_dir_of(container_name), mode: OPEN_MODE });
    plan.vital(
        Step::MountUnion {
            upper: write_layer_dir_of(container_name),
            lower: image_dir_of(image_name),
            target: mount_point_dir_of(container_name),
        },
    );
    plan
}

/// Plans the volume `volume_urls` of the container `container_name`.
pub fn mount_volume(volume_urls: &VolumeBinding, container_name: &str) -> (plan: Plan)
    ensures
        plan@ == volume_plan(volume_urls@, container_name@),
{
    let mut plan = Plan::new();
    plan.vital(Step::CreateDir { path: volume_urls.host.clone(), mode: OPEN_MODE });
    plan.vital(
        Step::CreateDir {
            path: volume_target_of(container_name, volume_urls.inner.as_str()),
            mode: OPEN_MODE,
        },
    );
    plan.vital(
        Step::MountVolume {
            source: volume_urls.host.clone(),
            target: volume_target_of(container_name, volume_urls.inner.as_str()),
        },
    );
    plan
}

/// Plans the file system of the container `container_name` over the image
/// `image_name`, with the volume that `volume` asks for. `image_present` says
/// whether the directory of the image's layer exists. A volume parameter that
/// is not of the form `host:inner` is no error: the plan is the one without
/// volume.
pub fn new_work_space(
    volume: &str,
    image_name: &str,
    container_name: &str,
    image_present: bool,
) -> (space: WorkSpace)
    ensures
        space.plan@ == work_space_plan(volume@, image_name@, container_name@, image_present),
        space.volume@ == VolumeUse::of(volume@),
{
    let mut plan = create_readonly_layer(image_name, image_present);
    plan.append(create_write_layer(container_name));
    plan.append(create_mount_point(container_name, image_name));
    let mut used = VolumeUse::Absent;
    match parse_volume(volume) {
        Some(binding) => {
            plan.append(mount_volume(&binding, container_name));
            used = VolumeUse::Bound(binding);
        },
        None => {
            if !volume.is_empty() {
                used = VolumeUse::Malformed;
            }
        },
    }
    proof {
        if volume@.len() == 0 {
            assert(split_on(volume@, ':').len() == 1);
        }
    }
    WorkSpace { plan, volume: used }
}

/// Plans the removal of the volume `volume_urls` from the container
/// `container_name`.
pub fn delete_volume(volume_urls: &VolumeBinding, container_name: &str) -> (plan: Plan)
    ensures
        plan@ == delete_volume_plan(volume_urls@, container_name@),
{
    let mut plan = Plan::new();
    plan.lenient(
        Step::Unmount { target: volume_target_of(container_name, volume_urls.inner.as_str()) },
        0,
    );
    plan
}

/// Plans the removal of the root of the container `container_name`.
pub fn delete_mount_point(container_name: &str) -> (plan: Plan)
    ensures
        plan@ == delete_mount_point_plan(container_name@),
{
    let mut plan = Plan::new();
    plan.lenient(Step::Unmount { target: mount_point_dir_of(container_name) }, 1);
    plan.lenient(Step::RemoveTree { path: mount_point_dir_of(container_name) }, 0);
    plan
}

/// Plans the removal of the write layer of the container `container_name`.
pub fn delete_write_layer(container_name: &str) -> (plan: Plan)
    ensures
        plan@ == delete_write_layer_plan(container_name@),
{
    let mut plan = Plan::new();
    plan.lenient(Step::RemoveTree { path: write_layer_dir_of(container_name) }, 0);
    plan
}

/// Plans the removal of the file system of the container `container_name`,
/// which was built with the volume parameter `volume`.
pub fn delete_work_space(volume: &str, container_name: &str) -> (plan: Plan)
    ensures
        plan@ == delete_work_space_plan(volume@, container_name@),
{
    let mut plan = Plan::new();
    match parse_volume(volume) {
        Some(binding) => {
            plan.append(delete_volume(&binding, container_name));
        },
        None => {},
    }
    plan.append(delete_mount_point(container_name));
    plan.append(delete_write_layer(container_name));
    plan
}

/// The building of a file system ends on the first failure.
///
/// Whatever succeeds and fails, a step of the plan is performed exactly
/// where all steps before it have succeeded: no layer is made after a failed
/// unpacking, and nothing is mounted on what could not be made.
pub proof fn lemma_work_space_ends_on_first_failure(
    volume: Seq<char>,
    image: Seq<char>,
    container: Seq<char>,
    image_present: bool,
    ok: spec_fn(int) -> bool,
    target: int,
)
    requires
        0 <= target < work_space_plan(volume, image, container, image_present).len(),
    ensures
        all_vital(work_space_plan(volume, image, container, image_present)),
        performs(work_space_plan(volume, image, container, image_present), ok, target)
            <==> forall|j: int| 0 <= j < target ==> #[trigger] ok(j),
{
    let plan = work_space_plan(volume, image, container, image_present);
    let layer = readonly_layer_plan(image, image_present);
    let extra = optional_volume_plan(volume, container);
    assert forall|i: int| 0 <= i < plan.len() implies (#[trigger] plan[i]).on_failure
        == crate::plan::OnFailure::Abort by {
        if i < layer.len() {
            assert(plan[i] == layer[i]);
        } else if i < layer.len() + 1 {
            assert(plan[i] == write_layer_plan(container)[i - layer.len()]);
        } else if i < layer.len() + 3 {
            assert(plan[i] == mount_point_plan(container, image)[i - layer.len() - 1]);
        } else {
            assert(plan[i] == extra[i - layer.len() - 3]);
        }
    }
    lemma_vital_plan_stops_at_failure(plan, ok, target);
}

/// The clearing of a file system goes on after a failure, but removes no
/// directory on which something may still be mounted.
///
/// Whatever succeeds and fails, the unmounting of the root and the removal of
/// the write layer are always performed, and so is the unmounting of the
/// volume where there is one; the root's directory is removed exactly where
/// the unmounting of the root has succeeded.
pub proof fn lemma_root_is_removed_only_when_unmounted(
    volume: Seq<char>,
    container: Seq<char>,
    ok: spec_fn(int) -> bool,
)
    ensures
        ({
            let plan = delete_work_space_plan(volume, container);
            let at = plan.len() - 3;
            &&& at == 0 || at == 1
            &&& at == 1 <==> binding_of(volume) is Some
            &&& at == 1 ==> plan[0].step is Unmount && performs(plan, ok, 0)
            &&& plan[at].step == StepView::Unmount { target: mount_point_dir(container) }
            &&& plan[at + 1].step == StepView::RemoveTree { path: mount_point_dir(container) }
            &&& plan[at + 2].step == StepView::RemoveTree { path: write_layer_dir(container) }
            &&& performs(plan, ok, at)
            &&& performs(plan, ok, at + 1) <==> ok(at)
            &&& performs(plan, ok, at + 2)
        }),
{
    reveal_with_fuel(reaches, 5);
    let plan = delete_work_space_plan(volume, container);
    let first = optional_delete_volume_plan(volume, container);
    assert(plan =~= first + delete_mount_point_plan(container) + delete_write_layer_plan(
        container,
    ));
}

/// The write layer lies over the image.
///
/// Whatever the container, the image and the volume, the plan of the file
/// system holds exactly one union mount: on the root of the container, with
/// the container's write layer as the upper branch, which is searched first
/// and takes the writes, and the image's layer as the lower one. The option
/// that hands the branches to the mount names the write layer first.
pub proof fn lemma_write_layer_lies_over_image(
    volume: Seq<char>,
    image: Seq<char>,
    container: Seq<char>,
    image_present: bool,
)
    ensures
        ({
            let plan = work_space_plan(volume, image, container, image_present);
            let union = StepView::MountUnion {
                upper: write_layer_dir(container),
                lower: image_dir(image),
                target: mount_point_dir(container),
            };
            &&& exists|i: int| 0 <= i < plan.len() && #[trigger] plan[i].step == union
            &&& forall|i: int|
                0 <= i < plan.len() && #[trigger] plan[i].step is MountUnion ==> plan[i].step
                    == union
            &&& tool_words(union) matches Some(words) && words[4] == "dirs="@ + write_layer_dir(
                container,
            ) + ":"@ + image_dir(image)
        }),
{
    let plan = work_space_plan(volume, image, container, image_present);
    let layer = readonly_layer_plan(image, image_present);
    let at = layer.len() + 2;
    let union = StepView::MountUnion {
        upper: write_layer_dir(container),
        lower: image_dir(image),
        target: mount_point_dir(container),
    };
    assert(plan[at as int] == mount_point_plan(container, image)[1]);
    assert(plan[at as int].step == union);
    assert(tool_words(union)->0[4] == union_option(write_layer_dir(container), image_dir(image)));
    assert forall|i: int| 0 <= i < plan.len() && #[trigger] plan[i].step is MountUnion implies i
        == at by {
        let extra = optional_volume_plan(volume, container);
        if i < layer.len() {
            assert(plan[i] == layer[i]);
        } else if i < layer.len() + 1 {
            assert(plan[i] == write_layer_plan(container)[i - layer.len()]);
        } else if i < layer.len() + 3 {
            assert(plan[i] == mount_point_plan(container, image)[i - layer.len() - 1]);
        } else {
            assert(plan[i] == extra[i - layer.len() - 3]);
        }
    }
}

/// The words that ask a tool of the host for a step, for the steps that are
/// left to one: the unpacking of an archive, the union mount of the layers,
/// the bind mount of a volume, and the unmounting. The first word names what
/// is to be done.
pub open spec fn tool_words(step: StepView) -> Option<Seq<Seq<char>>> {
    match step {
        StepView::Extract { archive, into } => Some(
            seq!["tar"@, "-xvf"@, archive, "-C"@, into],
        ),
        StepView::MountUnion { upper, lower, target } => Some(
            seq!["mount"@, "-t"@, "aufs"@, "-o"@, union_option(upper, lower), "none"@, target],
        ),
        StepView::MountVolume { source, target } => Some(
            seq!["mount"@, "--bind"@, source, target],
        ),
        StepView::Unmount { target } => Some(seq!["unmount"@, target]),
        _ => None,
    }
}

/// A list of the texts `words`.
fn texts(words: Vec<&str>) -> (out: Vec<String>)
    ensures
        out.deep_view() == words@.map_values(|w: &str| w@),
{
    let mut out: Vec<String> = Vec::new();
    let mut i: usize = 0;
    while i < words.len()
        invariant
            i <= words.len(),
            out.deep_view() == words@.map_values(|w: &str| w@).take(i as int),
        decreases words.len() - i,
    {
        let ghost before = out.deep_view();
        out.push(words[i].to_owned());
        assert(out.deep_view() =~= before.push(words@[i as int]@));
        assert(out.deep_view() =~= words@.map_values(|w: &str| w@).take(i + 1));
        i += 1;
    }
    assert(words@.map_values(|w: &str| w@).take(words.len() as int) =~= words@.map_values(
        |w: &str| w@,
    ));
    out
}

/// The words that ask a tool of the host for `step` (see [`tool_words`]).
pub fn tool_command(step: &Step) -> (r: Option<Vec<String>>)
    ensures
        match r {
            Some(words) => tool_words(step@) == Some(words.deep_view()),
            None => tool_words(step@) is None,
        },
{
    match step {
        Step::Extract { archive, into } => {
            let words = texts(vec!["tar", "-xvf", archive.as_str(), "-C", into.as_str()]);
            assert(words.deep_view() =~= tool_words(step@)->0);
            Some(words)
        },
        Step::MountUnion { upper, lower, target } => {
            let option = union_option_of(upper.as_str(), lower.as_str());
            let words = texts(
                vec!["mount", "-t", "aufs", "-o", option.as_str(), "none", target.as_str()],
            );
            assert(words.deep_view() =~= tool_words(step@)->0);
            Some(words)
        },
        Step::MountVolume { source, target } => {
            let words = texts(vec!["mount", "--bind", source.as_str(), target.as_str()]);
            assert(words.deep_view() =~= tool_words(step@)->0);
            Some(words)
        },
        Step::Unmount { target } => {
            let words = texts(vec!["unmount", target.as_str()]);
            assert(words.deep_view() =~= tool_words(step@)->0);
            Some(words)
        },
        _ => None,
    }
}

/// Permissions of the directory that holds the log of a container.
pub const LOG_DIR_MODE: u32 = 0o622;

/// The descriptor on which the first process of a container finds the pipe
/// that brings its command.
pub const CONTROL_PIPE_FD: i32 = 3;

/// What is kept of a container once it runs.
#[allow(non_camel_case_types)]
#[derive(Clone, Debug, PartialEq, Eq)]
pub struct container_info {
    pub pid: libc::pid_t,
    pub id: u32,
    pub name: String,
    pub command: String,
    pub create_time: String,
    pub status: String,
    pub volume: String,
    pub port_mapping: Vec<u32>,
}

/// `env` with the variables of `pairs` set one after the other, a later one
/// replacing an earlier one of the same name.
pub open spec fn with_variables(
    env: Map<Seq<char>, Seq<char>>,
    pairs: Seq<(Seq<char>, Seq<char>)>,
) -> Map<Seq<char>, Seq<char>>
    decreases pairs.len(),
{
    if pairs.len() == 0 {
        env
    } else {
        with_variables(env, pairs.drop_last()).insert(pairs.last().0, pairs.last().1)
    }
}

/// The environment of the first process of a container: that of the process
/// that starts it, overlaid with the variables given for the container.
pub open spec fn child_environment(
    inherited: Seq<(Seq<char>, Seq<char>)>,
    given: Seq<(Seq<char>, Seq<char>)>,
) -> Map<Seq<char>, Seq<char>> {
    with_variables(with_variables(no_variables(), inherited), given)
}

/// The variable that an entry of the form `name=value` gives: the name is
/// what stands before the first `=`, the value all that follows it. An entry
/// without `=` gives its name an empty value.
pub open spec fn variable(entry: Seq<char>) -> (Seq<char>, Seq<char>) {
    let parts = split_on(entry, '=');
    (parts[0], join_with(parts.skip(1), '='))
}

/// The name and the value of an entry (see [`variable`]).
pub fn variable_of(entry: &str) -> (pair: (String, String))
    ensures
        pair.deep_view() == variable(entry@),
{
    let parts = split(entry, '=');
    let mut rest: Vec<String> = Vec::new();
    let mut i: usize = 1;
    assert(rest.deep_view() =~= parts.deep_view().subrange(1, 1));
    while i < parts.len()
        invariant
            1 <= i <= parts.len(),
            rest.deep_view() == parts.deep_view().subrange(1, i as int),
        decreases parts.len() - i,
    {
        let ghost before = rest.deep_view();
        rest.push(parts[i].clone());
        assert(rest.deep_view() =~= before.push(parts.deep_view()[i as int]));
        i += 1;
    }
    assert(parts.deep_view().subrange(1, parts.len() as int) =~= parts.deep_view().skip(1));
    (parts[0].clone(), join_texts(&rest, '='))
}

/// The name and the value make the entry: an entry with `=` is its name, an
/// `=` and its value, and its name holds no `=`.
pub proof fn lemma_variable_parts(entry: Seq<char>)
    ensures
        !variable(entry).0.contains('='),
        entry.contains('=') ==> entry == variable(entry).0.push('=') + variable(entry).1,
        !entry.contains('=') ==> variable(entry) == (entry, Seq::<char>::empty()),
{
    let by = Separator::Char('=');
    let parts = split_on(entry, '=');
    lemma_pieces_nonempty(entry, by);
    lemma_pieces_hold_no_separator(entry, by);
    lemma_join_split(entry, '=');
    if parts[0].contains('=') {
        let j = choose|j: int| 0 <= j < parts[0].len() && parts[0][j] == '=';
        assert(by.matches(parts[0][j]));
    }
    lemma_join_front(parts, '=');
    if parts.len() == 1 {
        assert(parts.skip(1) =~= Seq::<Seq<char>>::empty());
        assert(entry == parts[0]);
    } else {
        assert(entry.contains('=')) by {
            assert(entry[parts[0].len() as int] == '=');
        }
    }
}

/// The namespaces that a container has for itself.
pub open spec fn container_namespaces() -> Set<Namespace> {
    no_namespaces().insert(Namespace::Mount).insert(Namespace::Ipc).insert(Namespace::Pid).insert(
        Namespace::Net,
    ).insert(Namespace::Uts)
}

/// A variable given for the container decides over an inherited one: the
/// value of a name is the one of the last pair that was given for it, and
/// where none was given, the one of the last pair inherited for it.
pub proof fn lemma_given_variables_win(
    inherited: Seq<(Seq<char>, Seq<char>)>,
    given: Seq<(Seq<char>, Seq<char>)>,
    name: Seq<char>,
)
    ensures
        forall|i: int|
            0 <= i < given.len() && given[i].0 == name && (forall|j: int|
                i < j < given.len() ==> (#[trigger] given[j]).0 != name) ==> child_environment(
                inherited,
                given,
            )[name] == (#[trigger] given[i]).1 && child_environment(
                inherited,
                given,
            ).dom().contains(name),
        (forall|j: int| 0 <= j < given.len() ==> (#[trigger] given[j]).0 != name)
            ==> forall|i: int|
            0 <= i < inherited.len() && inherited[i].0 == name && (forall|j: int|
                i < j < inherited.len() ==> (#[trigger] inherited[j]).0 != name)
                ==> child_environment(inherited, given)[name] == (#[trigger] inherited[i]).1,
{
    let base = with_variables(no_variables(), inherited);
    lemma_last_pair_decides(base, given, name);
    lemma_last_pair_decides(no_variables(), inherited, name);
}

/// In [`with_variables`] the last pair of a name decides its value; a name
/// without pair keeps what it had.
pub proof fn lemma_last_pair_decides(
    env: Map<Seq<char>, Seq<char>>,
    pairs: Seq<(Seq<char>, Seq<char>)>,
    name: Seq<char>,
)
    ensures
        forall|i: int|
            0 <= i < pairs.len() && pairs[i].0 == name && (forall|j: int|
                i < j < pairs.len() ==> (#[trigger] pairs[j]).0 != name) ==> with_variables(
                env,
                pairs,
            ).dom().contains(name) && with_variables(env, pairs)[name] == (#[trigger] pairs[i]).1,
        (forall|j: int| 0 <= j < pairs.len() ==> (#[trigger] pairs[j]).0 != name) ==> {
            &&& with_variables(env, pairs).dom().contains(name) == env.dom().contains(name)
            &&& with_variables(env, pairs)[name] == env[name]
        },
    decreases pairs.len(),
{
    if pairs.len() > 0 {
        let front = pairs.drop_last();
        lemma_last_pair_decides(env, front, name);
        assert forall|i: int|
            0 <= i < pairs.len() && pairs[i].0 == name && (forall|j: int|
                i < j < pairs.len() ==> (#[trigger] pairs[j]).0 != name) implies with_variables(
            env,
            pairs,
        ).dom().contains(name) && with_variables(env, pairs)[name] == (#[trigger] pairs[i]).1 by {
            if i < pairs.len() - 1 {
                assert(pairs[pairs.len() - 1].0 != name);
                assert(front[i] == pairs[i]);
                assert forall|j: int| i < j < front.len() implies (#[trigger] front[j]).0
                    != name by {
                    assert(front[j] == pairs[j]);
                }
            }
        }
        if forall|j: int| 0 <= j < pairs.len() ==> (#[trigger] pairs[j]).0 != name {
            assert(pairs[pairs.len() - 1].0 != name);
            assert forall|j: int| 0 <= j < front.len() implies (#[trigger] front[j]).0
                != name by {
                assert(front[j] == pairs[j]);
            }
        }
    }
}

/// Where the output of a container goes that has no terminal.
#[derive(Clone, Debug, PartialEq, Eq)]
pub struct LogTarget {
    /// The step that provides the directory of the log.
    pub plan: Plan,
    /// The file that takes the standard output.
    pub file: String,
}

/// Why the start of a container cannot be prepared.
#[derive(Clone, Copy, Debug, PartialEq, Eq, Structural)]
pub enum StartError {
    /// The name of the container holds a NUL, which no path can hold.
    NameHoldsNul,
}

impl StartError {
    /// What to say of the error.
    pub open spec fn message_of(self) -> Seq<char> {
        "container name holds a NUL"@
    }

    /// What to say of the error.
    pub fn message(&self) -> (m: String)
        ensures
            m@ == self.message_of(),
    {
        "container name holds a NUL".to_owned()
    }
}

/// The start of a container, as far as it is decided before anything is done.
///
/// The caller performs, in this order: the plan of the log and the opening of
/// its file as the standard output of the command, where there is a log; the
/// plan of the work space; the start of the command. It keeps the writing end
/// of the pipe that the command has on [`CONTROL_PIPE_FD`].
pub struct ParentProcess {
    /// The command that becomes the first process of the container.
    pub command: unshare::Command,
    /// Where the output goes; `None` with a terminal.
    pub log: Option<LogTarget>,
    /// The file system of the container.
    pub work_space: WorkSpace,
}

/// The step that provides the directory of the log of a container.
pub open spec fn log_plan(container: Seq<char>) -> Seq<PlannedView> {
    seq![vital(StepView::CreateDir { path: log_dir(container), mode: LOG_DIR_MODE })]
}

/// Sets the variables of `pairs` one after the other.
fn set_variables(cmd: &mut unshare::Command, pairs: &Vec<(String, String)>)
    requires
        !command_inherits_env(*old(cmd)),
    ensures
        !command_inherits_env(*final(cmd)),
        command_env(*final(cmd)) == with_variables(command_env(*old(cmd)), pairs.deep_view()),
        command_program(*final(cmd)) == command_program(*old(cmd)),
        command_args(*final(cmd)) == command_args(*old(cmd)),
        command_namespaces(*final(cmd)) == command_namespaces(*old(cmd)),
        command_inbound_pipes(*final(cmd)) == command_inbound_pipes(*old(cmd)),
        command_work_dir(*final(cmd)) == command_work_dir(*old(cmd)),
{
    let mut i: usize = 0;
    assert(pairs.deep_view().take(0).len() == 0);
    while i < pairs.len()
        invariant
            i <= pairs.len(),
            !command_inherits_env(*cmd),
            command_env(*cmd) == with_variables(
                command_env(*old(cmd)),
                pairs.deep_view().take(i as int),
            ),
            command_program(*cmd) == command_program(*old(cmd)),
            command_args(*cmd) == command_args(*old(cmd)),
            command_namespaces(*cmd) == command_namespaces(*old(cmd)),
            command_inbound_pipes(*cmd) == command_inbound_pipes(*old(cmd)),
            command_work_dir(*cmd) == command_work_dir(*old(cmd)),
        decreases pairs.len() - i,
    {
        proof {
            let ghost next = pairs.deep_view().take(i + 1);
            assert(next.drop_last() =~= pairs.deep_view().take(i as int));
            assert(next.last() == pairs.deep_view()[i as int]);
        }
        command_env_set(cmd, pairs[i].0.as_str(), pairs[i].1.as_str());
        i += 1;
    }
    assert(pairs.deep_view().take(pairs.len() as int) =~= pairs.deep_view());
}

/// Prepares the start of the container `container_name` over the image
/// `image_name`, with the volume that `volume` asks for.
///
/// The command runs this program again, with the single argument `init`, in
/// mount, IPC, PID, network and UTS namespaces of its own, and with the root
/// of the container as its working directory. Its environment is
/// `inherited`, the environment of the running process, overlaid with
/// `env_slice`. On [`CONTROL_PIPE_FD`] it finds the reading end of a pipe.
/// Without terminal (`tty` is false) its output goes to the log of the
/// container. `image_present` says whether the directory of the image's layer
/// exists.
///
/// A name with a NUL is refused: the only error.
pub fn new_parent_process(
    tty: bool,
    container_name: &str,
    volume: &str,
    image_name: &str,
    inherited: &Vec<(String, String)>,
    env_slice: &Vec<(String, String)>,
    image_present: bool,
) -> (r: Result<ParentProcess, StartError>)
    ensures
        r is Err <==> container_name@.contains('\0'),
        r matches Ok(parent) ==> {
            &&& command_program(parent.command) == "/proc/self/exe"@
            &&& command_args(parent.command) == seq!["/proc/self/exe"@, "init"@]
            &&& !command_inherits_env(parent.command)
            &&& command_env(parent.command) == child_environment(
                inherited.deep_view(),
                env_slice.deep_view(),
            )
            &&& command_namespaces(parent.command) == container_namespaces()
            &&& command_inbound_pipes(parent.command) == no_pipes().insert(CONTROL_PIPE_FD as int)
            &&& command_work_dir(parent.command) == Some(mount_point_dir(container_name@))
            &&& tty <==> parent.log is None
            &&& parent.log matches Some(log) ==> log.plan@ == log_plan(container_name@)
                && log.file@ == log_file(container_name@)
            &&& parent.work_space.plan@ == work_space_plan(
                volume@,
                image_name@,
                container_name@,
                image_present,
            )
            &&& parent.work_space.volume@ == VolumeUse::of(volume@)
        },
{
    if holds_char(container_name, '\0') {
        return Err(StartError::NameHoldsNul);
    }
    proof {
        reveal_strlit("/proc/self/exe");
        reveal_strlit("init");
        reveal_strlit("/root/mnt/");
    }
    let mut cmd = command_new("/proc/self/exe");
    command_arg(&mut cmd, "init");
    command_env_clear(&mut cmd);
    set_variables(&mut cmd, inherited);
    set_variables(&mut cmd, env_slice);
    command_unshare(&mut cmd, Namespace::Mount);
    command_unshare(&mut cmd, Namespace::Ipc);
    command_unshare(&mut cmd, Namespace::Pid);
    command_unshare(&mut cmd, Namespace::Net);
    command_unshare(&mut cmd, Namespace::Uts);
    let root = mount_point_dir_of(container_name);
    proof {
        let dir = mount_point_dir(container_name@);
        if dir.contains('\0') {
            let i = choose|i: int| 0 <= i < dir.len() && dir[i] == '\0';
            if i < "/root/mnt/"@.len() {
                assert("/root/mnt/"@[i] == '\0');
            } else {
                assert(container_name@[i - "/root/mnt/"@.len()] == '\0');
            }
        }
    }
    command_current_dir(&mut cmd, root.as_str());
    let log = if tty {
        None
    } else {
        let mut plan = Plan::new();
        plan.vital(Step::CreateDir { path: log_dir_of(container_name), mode: LOG_DIR_MODE });
        Some(LogTarget { plan, file: log_file_of(container_name) })
    };
    command_pipe_in(&mut cmd, CONTROL_PIPE_FD);
    let work_space = new_work_space(volume, image_name, container_name, image_present);
    Ok(ParentProcess { command: cmd, log, work_space })
}

/// What to say when the command with the rendering `rendering` has failed on
/// `err`.
pub open spec fn error_text(rendering: Seq<char>, err: Seq<char>) -> Seq<char> {
    "Error running "@ + rendering + ": "@ + err
}

/// What to say when the command with the rendering `rendering` has failed on
/// `err`.
pub fn cmd_err_text(rendering: &str, err: &str) -> (text: String)
    ensures
        text@ == error_text(rendering@, err@),
{
    let mut text = "Error running ".to_owned();
    text.append(rendering);
    text.append(": ");
    text.append(err);
    text
}

/// What to say when `cmd` has failed on `err`: [`error_text`] of the
/// rendering of `cmd` that [`cmd_debug`] gives.
pub fn cmd_err(cmd: &unshare::Command, err: &str) -> (text: String)
    ensures
        exists|rendering: Seq<char>| text@ == error_text(rendering, err@),
{
    let rendering = cmd_debug(cmd);
    cmd_err_text(rendering.as_str(), err)
}

/// What to say when a command could not be started on `err`: the short
/// rendering of the command for the reader in a hurry, the error, and the
/// full rendering for the search of its cause.
pub open spec fn spawn_error_text(short: Seq<char>, full: Seq<char>, err: Seq<char>) -> Seq<
    char,
> {
    "Command "@ + short + ": "@ + err + " ("@ + full + ")"@
}

/// What to say when a command with these renderings could not be started on
/// `err`.
pub fn spawn_err_text(short: &str, full: &str, err: &str) -> (text: String)
    ensures
        text@ == spawn_error_text(short@, full@, err@),
{
    let mut text = "Command ".to_owned();
    text.append(short);
    text.append(": ");
    text.append(err);
    text.append(" (");
    text.append(full);
    text.append(")");
    text
}

/// What to say when `cmd` could not be started on `err`:
/// [`spawn_error_text`] of the renderings of `cmd` that [`cmd_show`] and
/// [`cmd_debug`] give.
pub fn spawn_err(cmd: &unshare::Command, err: &str) -> (text: String)
    ensures
        exists|full: Seq<char>|
            text@ == spawn_error_text(
                short_rendering(command_program(*cmd), command_args(*cmd)),
                full,
                err@,
            ),
{
    let short = cmd_show(cmd);
    let full = cmd_debug(cmd);
    spawn_err_text(short.as_str(), full.as_str(), err)
}

} // verus!
