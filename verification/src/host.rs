//! A model of the host on which plans are performed: the directories that
//! exist, the places on which something is mounted, and what was written to
//! files. The model says when a step can be performed and what it leaves
//! behind, and so gives a meaning to the order of the steps of a plan.
//!
//! Paths are compared as texts. A step of the container's own mount namespace
//! (`Mount`, `PivotRoot`, `ChangeDir`, `Detach`) leaves the host as it is.

use vstd::prelude::*;
use crate::container::{
    binding_of, delete_work_space_plan, optional_delete_volume_plan, optional_volume_plan,
    work_space_plan,
};
use crate::layout::{
    image_dir, image_staging_dir, mount_point_dir, volume_target, write_layer_dir,
};
use crate::plan::{performs, steps_of, PlannedView, StepView};

verus! {

/// The state of the host, as far as plans depend on it.
#[verifier::ext_equal]
pub struct Host {
    /// The directories that exist.
    pub dirs: Set<Seq<char>>,
    /// The directories on which something is mounted.
    pub mounts: Set<Seq<char>>,
    /// What the files hold that were written to: the texts written, in order.
    pub files: Map<Seq<char>, Seq<Seq<char>>>,
}

/// The texts that the file `path` holds; none where nothing was written to it.
pub open spec fn entries(host: Host, path: Seq<char>) -> Seq<Seq<char>> {
    if host.files.dom().contains(path) {
        host.files[path]
    } else {
        Seq::empty()
    }
}

/// `root`, ending in exactly the `/` that separates it from what lies below.
pub open spec fn stem(root: Seq<char>) -> Seq<char> {
    if root.len() > 0 && root.last() == '/' {
        root
    } else {
        root.push('/')
    }
}

/// Whether the path `p` is `root` or lies below it.
pub open spec fn within(p: Seq<char>, root: Seq<char>) -> bool {
    p == root || stem(root).is_prefix_of(p)
}

/// Whether something is mounted on `root` or below it.
pub open spec fn mounted_within(host: Host, root: Seq<char>) -> bool {
    exists|m: Seq<char>| host.mounts.contains(m) && within(m, root)
}

/// Whether `step` can be performed on `host`.
pub open spec fn admissible(host: Host, step: StepView) -> bool {
    match step {
        StepView::MakeDir { path } => !host.dirs.contains(path),
        StepView::RemoveDir { path } => host.dirs.contains(path) && !mounted_within(host, path),
        StepView::RemoveTree { path } => !mounted_within(host, path),
        StepView::Extract { archive, into } => host.dirs.contains(into),
        StepView::Rename { from, to } => host.dirs.contains(from) && !host.dirs.contains(to),
        StepView::MountUnion { upper, lower, target } => {
            &&& host.dirs.contains(upper)
            &&& host.dirs.contains(lower)
            &&& host.dirs.contains(target)
            &&& !host.mounts.contains(target)
        },
        StepView::MountVolume { source, target } => {
            &&& host.dirs.contains(source)
            &&& host.dirs.contains(target)
            &&& !host.mounts.contains(target)
        },
        StepView::Unmount { target } => {
            &&& host.mounts.contains(target)
            &&& forall|m: Seq<char>| host.mounts.contains(m) && within(m, target) ==> m == target
        },
        _ => true,
    }
}

/// The host after `step` has been performed on it.
pub open spec fn effect(host: Host, step: StepView) -> Host {
    match step {
        StepView::CreateDir { path, mode } => Host { dirs: host.dirs.insert(path), ..host },
        StepView::MakeDir { path } => Host { dirs: host.dirs.insert(path), ..host },
        StepView::RemoveDir { path } => Host { dirs: host.dirs.remove(path), ..host },
        StepView::RemoveTree { path } => Host {
            dirs: host.dirs.filter(|d: Seq<char>| !within(d, path)),
            ..host
        },
        StepView::Rename { from, to } => Host { dirs: host.dirs.remove(from).insert(to), ..host },
        StepView::MountUnion { upper, lower, target } => Host {
            mounts: host.mounts.insert(target),
            ..host
        },
        StepView::MountVolume { source, target } => Host {
            mounts: host.mounts.insert(target),
            ..host
        },
        StepView::Unmount { target } => Host { mounts: host.mounts.remove(target), ..host },
        StepView::WriteFile { path, mode, data } => Host {
            files: host.files.insert(path, seq![data]),
            ..host
        },
        StepView::AppendFile { path, mode, data } => Host {
            files: host.files.insert(path, entries(host, path).push(data)),
            ..host
        },
        _ => host,
    }
}

/// The host after all of `steps` have been performed on it, in order.
pub open spec fn after(host: Host, steps: Seq<StepView>) -> Host
    decreases steps.len(),
{
    if steps.len() == 0 {
        host
    } else {
        after(effect(host, steps[0]), steps.drop_first())
    }
}

/// Whether all of `steps` can be performed on `host`, in order.
pub open spec fn performable(host: Host, steps: Seq<StepView>) -> bool
    decreases steps.len(),
{
    steps.len() == 0 || (admissible(host, steps[0]) && performable(
        effect(host, steps[0]),
        steps.drop_first(),
    ))
}

/// What lies within a directory lies within every directory around it.
pub proof fn lemma_within_transitive(p: Seq<char>, a: Seq<char>, b: Seq<char>)
    requires
        within(p, a),
        within(a, b),
    ensures
        within(p, b),
{
    if p != a && a != b {
        let sa = stem(a);
        let sb = stem(b);
        assert(a.is_prefix_of(sa));
        assert(sb =~= p.subrange(0, sb.len() as int)) by {
            assert(sb =~= a.subrange(0, sb.len() as int));
            assert(a =~= sa.subrange(0, a.len() as int));
            assert(sa =~= p.subrange(0, sa.len() as int));
        }
    }
}

/// A directory does not lie within a longer path.
pub proof fn lemma_within_not_shorter(p: Seq<char>, root: Seq<char>)
    requires
        within(p, root),
    ensures
        p.len() >= root.len(),
{
}

/// Steps one after the other: the second part starts where the first ends.
pub proof fn lemma_after_concat(host: Host, first: Seq<StepView>, second: Seq<StepView>)
    ensures
        after(host, first + second) == after(after(host, first), second),
        performable(host, first + second) == (performable(host, first) && performable(
            after(host, first),
            second,
        )),
    decreases first.len(),
{
    if first.len() == 0 {
        assert(first + second == second);
    } else {
        assert((first + second)[0] == first[0]);
        assert((first + second).drop_first() == first.drop_first() + second);
        lemma_after_concat(effect(host, first[0]), first.drop_first(), second);
    }
}

/// One step alone.
pub proof fn lemma_after_one(host: Host, step: StepView)
    ensures
        after(host, seq![step]) == effect(host, step),
        performable(host, seq![step]) == admissible(host, step),
{
    reveal_with_fuel(after, 2);
    reveal_with_fuel(performable, 2);
    assert(seq![step].drop_first() =~= Seq::<StepView>::empty());
}

/// A step in front of others.
pub proof fn lemma_after_first(host: Host, step: StepView, rest: Seq<StepView>)
    ensures
        after(host, seq![step] + rest) == after(effect(host, step), rest),
        performable(host, seq![step] + rest) == (admissible(host, step) && performable(
            effect(host, step),
            rest,
        )),
{
    lemma_after_one(host, step);
    lemma_after_concat(host, seq![step], rest);
}

/// The steps of two plans, one after the other.
pub proof fn lemma_steps_of_concat(first: Seq<PlannedView>, second: Seq<PlannedView>)
    ensures
        steps_of(first + second) == steps_of(first) + steps_of(second),
{
    assert(steps_of(first + second) =~= steps_of(first) + steps_of(second));
}

/// Whether nothing is mounted on or below the directories that belong to the
/// container alone: its root and its write layer.
pub open spec fn clear_of_mounts(host: Host, container: Seq<char>) -> bool {
    !mounted_within(host, mount_point_dir(container)) && !mounted_within(
        host,
        write_layer_dir(container),
    )
}

/// Whether a directory lies outside of what belongs to the container alone.
pub open spec fn outside(p: Seq<char>, container: Seq<char>) -> bool {
    !within(p, mount_point_dir(container)) && !within(p, write_layer_dir(container))
}

/// The directories after the layer of an image has been provided: as they
/// were where the layer was there; else with the layer, and without the
/// directory into which it was unpacked.
pub open spec fn layered(dirs: Set<Seq<char>>, image: Seq<char>) -> Set<Seq<char>> {
    if dirs.contains(image_dir(image)) {
        dirs
    } else {
        dirs.remove(image_staging_dir(image)).insert(image_dir(image))
    }
}

/// The name of the directory into which an image is unpacked is not the name
/// of its layer.
pub proof fn lemma_staging_is_beside(image: Seq<char>)
    ensures
        image_staging_dir(image) != image_dir(image),
{
    reveal_strlit(".unpacking");
    assert(image_staging_dir(image).len() == image_dir(image).len() + 10);
}

/// The host after the file system of a container has been built on it.
pub open spec fn built(
    host: Host,
    volume: Seq<char>,
    image: Seq<char>,
    container: Seq<char>,
) -> Host {
    let dirs = layered(host.dirs, image).insert(write_layer_dir(container)).insert(
        mount_point_dir(container),
    );
    let mounts = host.mounts.insert(mount_point_dir(container));
    match binding_of(volume) {
        Some(b) => Host {
            dirs: dirs.insert(b.host).insert(volume_target(container, b.inner)),
            mounts: mounts.insert(volume_target(container, b.inner)),
            ..host
        },
        None => Host { dirs, mounts, ..host },
    }
}

/// The place of a volume lies below the root of its container, and is not
/// that root.
pub proof fn lemma_volume_target_within_root(container: Seq<char>, inner: Seq<char>)
    ensures
        within(volume_target(container, inner), mount_point_dir(container)),
        volume_target(container, inner) != mount_point_dir(container),
        !within(mount_point_dir(container), volume_target(container, inner)),
{
    reveal_strlit("/");
    let root = mount_point_dir(container);
    let target = volume_target(container, inner);
    assert("/"@ =~= seq!['/']);
    assert(target =~= root.push('/') + inner);
    assert(target.len() > root.len());
    if root.len() > 0 && root.last() == '/' {
        assert(root =~= target.subrange(0, root.len() as int));
    } else {
        assert(root.push('/') =~= target.subrange(0, root.len() + 1 as int));
    }
    if within(root, target) {
        lemma_within_not_shorter(root, target);
    }
}

/// The steps that build the file system of a container leave the host
/// [`built`]. On a host on which nothing is mounted on or below the
/// container's own directories they can be performed in their order: the
/// union is mounted only once both layers and the root exist, the volume only
/// once the root is mounted.
pub proof fn lemma_work_space_is_built(
    host: Host,
    volume: Seq<char>,
    image: Seq<char>,
    container: Seq<char>,
)
    ensures
        ({
            let plan = work_space_plan(
                volume,
                image,
                container,
                host.dirs.contains(image_dir(image)),
            );
            &&& after(host, steps_of(plan)) == built(host, volume, image, container)
            &&& clear_of_mounts(host, container) ==> performable(host, steps_of(plan))
        }),
{
    let clear = clear_of_mounts(host, container);
    let present = host.dirs.contains(image_dir(image));
    let idir = image_dir(image);
    let staging = image_staging_dir(image);
    let wdir = write_layer_dir(container);
    let root = mount_point_dir(container);
    let plan = work_space_plan(volume, image, container, present);
    lemma_staging_is_beside(image);
    let layer: Seq<StepView> = if present {
        Seq::empty()
    } else {
        seq![
            StepView::CreateDir { path: staging, mode: crate::container::IMAGE_LAYER_MODE },
            StepView::Extract { archive: crate::layout::image_archive(image), into: staging },
            StepView::Rename { from: staging, to: idir },
        ]
    };
    let core: Seq<StepView> = seq![
        StepView::CreateDir { path: wdir, mode: crate::container::OPEN_MODE },
        StepView::CreateDir { path: root, mode: crate::container::OPEN_MODE },
        StepView::MountUnion { upper: wdir, lower: idir, target: root },
    ];
    let extra = steps_of(optional_volume_plan(volume, container));
    assert(steps_of(plan) =~= layer + core + extra);

    // the image's layer
    let h1 = Host { dirs: layered(host.dirs, image), ..host };
    assert(performable(host, layer) && after(host, layer) =~= h1) by {
        if !present {
            assert(layer =~= seq![layer[0]] + (seq![layer[1]] + seq![layer[2]]));
            lemma_after_first(host, layer[0], seq![layer[1]] + seq![layer[2]]);
            let a = effect(host, layer[0]);
            lemma_after_first(a, layer[1], seq![layer[2]]);
            let b = effect(a, layer[1]);
            lemma_after_one(b, layer[2]);
        }
    }
    // the write layer, the root and the union
    let h2 = Host {
        dirs: layered(host.dirs, image).insert(wdir).insert(root),
        mounts: host.mounts.insert(root),
        ..host
    };
    assert((clear ==> performable(h1, core)) && after(h1, core) =~= h2) by {
        if clear && h1.mounts.contains(root) {
            assert(within(root, root));
        }
        assert(core =~= seq![core[0]] + (seq![core[1]] + seq![core[2]]));
        lemma_after_first(h1, core[0], seq![core[1]] + seq![core[2]]);
        let a = effect(h1, core[0]);
        lemma_after_first(a, core[1], seq![core[2]]);
        let b = effect(a, core[1]);
        lemma_after_one(b, core[2]);
    }
    // the volume
    let h3 = built(host, volume, image, container);
    assert((clear ==> performable(h2, extra)) && after(h2, extra) =~= h3) by {
        match binding_of(volume) {
            Some(b) => {
                let target = volume_target(container, b.inner);
                lemma_volume_target_within_root(container, b.inner);
                let s0 = StepView::CreateDir { path: b.host, mode: crate::container::OPEN_MODE };
                let s1 = StepView::CreateDir { path: target, mode: crate::container::OPEN_MODE };
                let s2 = StepView::MountVolume { source: b.host, target };
                assert(extra =~= seq![s0] + (seq![s1] + seq![s2]));
                if clear && host.mounts.contains(target) {
                    assert(within(target, root));
                }
                lemma_after_first(h2, s0, seq![s1] + seq![s2]);
                let a = effect(h2, s0);
                lemma_after_first(a, s1, seq![s2]);
                let b2 = effect(a, s1);
                lemma_after_one(b2, s2);
            },
            None => {
                assert(extra =~= Seq::<StepView>::empty());
            },
        }
    }
    lemma_after_concat(host, layer, core);
    lemma_after_concat(host, layer + core, extra);
}

/// Taking the file system of a container away again leaves nothing of it.
///
/// On a host on which nothing is mounted on or below the container's own
/// directories, and for an image whose layer lies outside of them, the steps
/// that build the file system and then those that take it away can all be
/// performed in their order: each unmount finds its mount with nothing left
/// mounted below it, and each removal finds nothing mounted in its way. They
/// leave no directory on or below the container's root and write layer, and
/// keep the image's layer and every other directory that was there, but for
/// the one into which the image was unpacked, which has become the layer. A
/// volume is unmounted, never deleted: its directory on the host stays where
/// it lies outside the container's own. Mounts and files are left as they
/// were.
pub proof fn lemma_teardown_leaves_no_residue(
    host: Host,
    volume: Seq<char>,
    image: Seq<char>,
    container: Seq<char>,
)
    requires
        clear_of_mounts(host, container),
        outside(image_dir(image), container),
    ensures
        ({
            let build = steps_of(
                work_space_plan(volume, image, container, host.dirs.contains(image_dir(image))),
            );
            let undo = steps_of(delete_work_space_plan(volume, container));
            let end = after(host, build + undo);
            &&& performable(host, build + undo)
            &&& forall|p: Seq<char>| !outside(p, container) ==> !end.dirs.contains(p)
            &&& end.dirs.contains(image_dir(image))
            &&& forall|p: Seq<char>|
                host.dirs.contains(p) && outside(p, container) && p != image_staging_dir(image)
                    ==> end.dirs.contains(p)
            &&& host.dirs.contains(image_dir(image)) ==> forall|p: Seq<char>|
                host.dirs.contains(p) && outside(p, container) ==> end.dirs.contains(p)
            &&& binding_of(volume) matches Some(b) ==> (outside(b.host, container)
                ==> end.dirs.contains(b.host))
            &&& end.mounts == host.mounts
            &&& end.files == host.files
        }),
{
    let wdir = write_layer_dir(container);
    let root = mount_point_dir(container);
    let build = steps_of(
        work_space_plan(volume, image, container, host.dirs.contains(image_dir(image))),
    );
    let undo = steps_of(delete_work_space_plan(volume, container));
    lemma_work_space_is_built(host, volume, image, container);
    lemma_after_concat(host, build, undo);
    let h3 = built(host, volume, image, container);

    let first = steps_of(optional_delete_volume_plan(volume, container));
    let s1 = StepView::Unmount { target: root };
    let s2 = StepView::RemoveTree { path: root };
    let s3 = StepView::RemoveTree { path: wdir };
    let last = seq![s1] + (seq![s2] + seq![s3]);
    assert(undo =~= first + last);

    // the volume
    let h4 = Host { dirs: h3.dirs, mounts: host.mounts.insert(root), ..host };
    assert(!host.mounts.contains(root)) by {
        if host.mounts.contains(root) {
            assert(within(root, root));
        }
    }
    assert(performable(h3, first) && after(h3, first) =~= h4) by {
        match binding_of(volume) {
            Some(b) => {
                let target = volume_target(container, b.inner);
                lemma_volume_target_within_root(container, b.inner);
                let s0 = StepView::Unmount { target };
                assert(first =~= seq![s0]);
                lemma_after_one(h3, s0);
                assert forall|m: Seq<char>| h3.mounts.contains(m) && within(m, target) implies m
                    == target by {
                    if m != target && m != root {
                        lemma_within_transitive(m, target, root);
                        assert(host.mounts.contains(m) && within(m, root));
                    }
                }
                assert(!host.mounts.contains(target)) by {
                    if host.mounts.contains(target) {
                        assert(within(target, root));
                    }
                }
            },
            None => {
                assert(first =~= Seq::<StepView>::empty());
            },
        }
    }
    // the root and the write layer
    let h5 = Host { dirs: h4.dirs, mounts: host.mounts, ..host };
    assert(admissible(h4, s1) && effect(h4, s1) =~= h5) by {
        assert forall|m: Seq<char>| h4.mounts.contains(m) && within(m, root) implies m
            == root by {
            if m != root {
                assert(host.mounts.contains(m) && within(m, root));
            }
        }
    }
    let h6 = effect(h5, s2);
    let h7 = effect(h6, s3);
    assert(admissible(h5, s2));
    assert(admissible(h6, s3));
    lemma_after_first(h4, s1, seq![s2] + seq![s3]);
    lemma_after_first(h5, s2, seq![s3]);
    lemma_after_one(h6, s3);
    lemma_after_concat(h3, first, last);
    assert(after(host, build + undo) == h7);
    assert(h7.mounts =~= host.mounts);
    assert(h7.files == host.files);
    lemma_staging_is_beside(image);
    assert(h3.dirs.contains(image_dir(image)));
    if let Some(b) = binding_of(volume) {
        assert(h3.dirs.contains(b.host));
    }
}

/// A failed unpacking leaves no layer behind.
///
/// For an image whose layer is not there, the plan begins with the making of
/// the directory beside the layer, the unpacking into it, and its renaming to
/// the layer. Whatever succeeds and fails, the renaming is performed only
/// where the unpacking has succeeded. After any of these steps has failed,
/// `done` of them having succeeded before, the layer is still not there, so
/// the plan of the next launch unpacks the image again.
pub proof fn lemma_failed_unpacking_leaves_no_layer(
    host: Host,
    volume: Seq<char>,
    image: Seq<char>,
    container: Seq<char>,
    next_volume: Seq<char>,
    next_container: Seq<char>,
    ok: spec_fn(int) -> bool,
    done: int,
)
    requires
        !host.dirs.contains(image_dir(image)),
        0 <= done <= 2,
    ensures
        ({
            let plan = work_space_plan(volume, image, container, false);
            let then = after(host, steps_of(plan).take(done));
            let next = work_space_plan(
                next_volume,
                image,
                next_container,
                then.dirs.contains(image_dir(image)),
            );
            &&& plan[0].step is CreateDir
            &&& plan[1].step == StepView::Extract {
                archive: crate::layout::image_archive(image),
                into: image_staging_dir(image),
            }
            &&& plan[2].step == StepView::Rename {
                from: image_staging_dir(image),
                to: image_dir(image),
            }
            &&& performs(plan, ok, 2) ==> ok(0) && ok(1)
            &&& !then.dirs.contains(image_dir(image))
            &&& next[1].step == plan[1].step
        }),
{
    let plan = work_space_plan(volume, image, container, false);
    let steps = steps_of(plan);
    let layer = crate::container::readonly_layer_plan(image, false);
    assert(plan[0] == layer[0] && plan[1] == layer[1] && plan[2] == layer[2]);
    lemma_staging_is_beside(image);
    crate::container::lemma_work_space_ends_on_first_failure(
        volume,
        image,
        container,
        false,
        ok,
        2,
    );
    reveal_with_fuel(after, 3);
    let prefix = steps.take(done);
    if done == 1 {
        assert(prefix =~= seq![steps[0]]);
        lemma_after_one(host, steps[0]);
    } else if done == 2 {
        assert(prefix =~= seq![steps[0]] + seq![steps[1]]);
        lemma_after_first(host, steps[0], seq![steps[1]]);
        lemma_after_one(effect(host, steps[0]), steps[1]);
    } else {
        assert(prefix =~= Seq::<StepView>::empty());
    }
    let next_layer = crate::container::readonly_layer_plan(image, false);
    assert(work_space_plan(next_volume, image, next_container, false)[1] == next_layer[1]);
}

/// An image is unpacked at most once.
///
/// Of two file systems that are built one after the other over the same
/// image, whatever their containers and volumes, the plan of the first holds
/// at most one unpacking, and the plan of the second, made for the host that
/// the first has left, holds none.
pub proof fn lemma_image_is_unpacked_once(
    host: Host,
    image: Seq<char>,
    volume: Seq<char>,
    container: Seq<char>,
    next_volume: Seq<char>,
    next_container: Seq<char>,
)
    ensures
        ({
            let first = work_space_plan(
                volume,
                image,
                container,
                host.dirs.contains(image_dir(image)),
            );
            let then = after(host, steps_of(first));
            let second = work_space_plan(
                next_volume,
                image,
                next_container,
                then.dirs.contains(image_dir(image)),
            );
            &&& forall|i: int, j: int|
                0 <= i < first.len() && 0 <= j < first.len() && first[i].step is Extract
                    && first[j].step is Extract ==> i == j
            &&& forall|i: int| 0 <= i < second.len() ==> !(second[i].step is Extract)
            &&& host.dirs.contains(image_dir(image)) ==> forall|i: int|
                0 <= i < first.len() ==> !(first[i].step is Extract)
        }),
{
    lemma_work_space_is_built(host, volume, image, container);
}

} // verus!
