//! What is mounted for the runner, on every host.
use vstd::prelude::*;
use vstd::utf8::{encode_utf8, is_ascii_chars, is_ascii_chars_encode_utf8, is_ascii_chars_nat_bound};

use crate::mounts::{all_steps, bind_device, bind_entries, bind_file, bind_home, bind_tree, flags_of, if_there, mount_fs, mounted_by, mounts_at, places, raw, step_warning, unmount_step, unmounted, wanted, warnings_of, DeviceEntry, HostDevices, KernelFs, StepView, UnmountOutcomeView, UnmountView};
use crate::paths::PathsView;
use crate::text::both_hold;
use crate::unix_path::{lossy_text, path_joined, path_parent, SEPARATOR};

verus! {

/// The steps before the entries of the directory of devices hold an item if and
/// only if one of their groups does.
proof fn first_groups(root: Seq<u8>, host: HostDevices, item: StepView)
    ensures
        before_entries(root, host).contains(item) <==> {
            ||| item == StepView::MakePrivate
            ||| mount_fs(KernelFs::Proc, path_joined(root, raw("proc"@))).contains(item)
            ||| bind_device(root, "null"@).contains(item)
            ||| bind_device(root, "zero"@).contains(item)
            ||| bind_device(root, "full"@).contains(item)
            ||| bind_device(root, "random"@).contains(item)
            ||| bind_device(root, "urandom"@).contains(item)
            ||| mount_fs(KernelFs::Devpts, path_joined(root, raw("dev/pts"@))).contains(item)
            ||| mount_fs(KernelFs::Tmpfs, path_joined(root, raw("dev/shm"@))).contains(item)
            ||| mount_fs(KernelFs::Tmpfs, path_joined(root, raw("tmp"@))).contains(item)
            ||| host.has_kfd && bind_file(
                raw("/dev/kfd"@),
                path_joined(root, raw("dev/kfd"@)),
            ).contains(item)
            ||| host.has_dri && bind_tree(
                raw("/dev/dri"@),
                path_joined(root, raw("dev/dri"@)),
            ).contains(item)
            ||| host.has_accel && bind_tree(
                raw("/dev/accel"@),
                path_joined(root, raw("dev/accel"@)),
            ).contains(item)
        },
{
    let a0 = seq![StepView::MakePrivate];
    let b1 = mount_fs(KernelFs::Proc, path_joined(root, raw("proc"@)));
    let b2 = bind_device(root, "null"@);
    let b3 = bind_device(root, "zero"@);
    let b4 = bind_device(root, "full"@);
    let b5 = bind_device(root, "random"@);
    let b6 = bind_device(root, "urandom"@);
    let b7 = mount_fs(KernelFs::Devpts, path_joined(root, raw("dev/pts"@)));
    let b8 = mount_fs(KernelFs::Tmpfs, path_joined(root, raw("dev/shm"@)));
    let b9 = mount_fs(KernelFs::Tmpfs, path_joined(root, raw("tmp"@)));
    let kfd = bind_file(raw("/dev/kfd"@), path_joined(root, raw("dev/kfd"@)));
    let dri = bind_tree(raw("/dev/dri"@), path_joined(root, raw("dev/dri"@)));
    let accel = bind_tree(raw("/dev/accel"@), path_joined(root, raw("dev/accel"@)));
    assert(a0[0] == StepView::MakePrivate);
    assert(a0.contains(StepView::MakePrivate));
    both_hold(a0, b1, item);
    let a1 = a0 + b1;
    both_hold(a1, b2, item);
    let a2 = a1 + b2;
    both_hold(a2, b3, item);
    let a3 = a2 + b3;
    both_hold(a3, b4, item);
    let a4 = a3 + b4;
    both_hold(a4, b5, item);
    let a5 = a4 + b5;
    both_hold(a5, b6, item);
    let a6 = a5 + b6;
    both_hold(a6, b7, item);
    let a7 = a6 + b7;
    both_hold(a7, b8, item);
    let a8 = a7 + b8;
    both_hold(a8, b9, item);
    let a9 = a8 + b9;
    both_hold(a9, if_there(host.has_kfd, kfd), item);
    let a10 = a9 + if_there(host.has_kfd, kfd);
    both_hold(a10, if_there(host.has_dri, dri), item);
    let a11 = a10 + if_there(host.has_dri, dri);
    both_hold(a11, if_there(host.has_accel, accel), item);
}

/// The steps before the entries of the directory of devices.
spec fn before_entries(root: Seq<u8>, host: HostDevices) -> Seq<StepView> {
    seq![StepView::MakePrivate] + mount_fs(KernelFs::Proc, path_joined(root, raw("proc"@)))
        + bind_device(root, "null"@) + bind_device(root, "zero"@) + bind_device(root, "full"@)
        + bind_device(root, "random"@) + bind_device(root, "urandom"@) + mount_fs(
        KernelFs::Devpts,
        path_joined(root, raw("dev/pts"@)),
    ) + mount_fs(KernelFs::Tmpfs, path_joined(root, raw("dev/shm"@))) + mount_fs(
        KernelFs::Tmpfs,
        path_joined(root, raw("tmp"@)),
    ) + if_there(
        host.has_kfd,
        bind_file(raw("/dev/kfd"@), path_joined(root, raw("dev/kfd"@))),
    ) + if_there(
        host.has_dri,
        bind_tree(raw("/dev/dri"@), path_joined(root, raw("dev/dri"@))),
    ) + if_there(
        host.has_accel,
        bind_tree(raw("/dev/accel"@), path_joined(root, raw("dev/accel"@))),
    )
}

proof fn all_groups(paths: PathsView, host: HostDevices, item: StepView)
    ensures
        all_steps(paths, host).contains(item) <==> {
            ||| before_entries(paths.runner_root, host).contains(item)
            ||| bind_entries(paths.runner_root, host.entries@).contains(item)
            ||| bind_tree(
                paths.files_root,
                path_joined(paths.runner_root, raw("mnt"@)),
            ).contains(item)
            ||| bind_home(paths.runner_root, host).contains(item)
        },
{
    let root = paths.runner_root;
    let start = before_entries(root, host);
    let entries = bind_entries(root, host.entries@);
    let files = bind_tree(paths.files_root, path_joined(root, raw("mnt"@)));
    both_hold(start, entries, item);
    both_hold(start + entries, files, item);
    both_hold(start + entries + files, bind_home(root, host), item);
}

/// What the groups of steps hold.
proof fn group_items(fs: KernelFs, source: Seq<u8>, place: Seq<u8>, item: StepView)
    ensures
        mount_fs(fs, place).contains(item) <==> item == StepView::EnsureDir(place) || item
            == StepView::MountFs(fs, place),
        bind_tree(source, place).contains(item) <==> item == StepView::EnsureDir(place) || item
            == StepView::Bind(source, place, true),
        bind_file(source, place).contains(item) <==> {
            ||| path_parent(place) is Some && item == StepView::EnsureDir(
                path_parent(place)->Some_0,
            )
            ||| item == StepView::EnsureFile(place)
            ||| item == StepView::Bind(source, place, false)
        },
{
    let m = mount_fs(fs, place);
    assert(m[0] == StepView::EnsureDir(place));
    assert(m[1] == StepView::MountFs(fs, place));
    let t = bind_tree(source, place);
    assert(t[0] == StepView::EnsureDir(place));
    assert(t[1] == StepView::Bind(source, place, true));
    let f = bind_file(source, place);
    assert(f[f.len() - 1] == StepView::Bind(source, place, false));
    assert(f[f.len() - 2] == StepView::EnsureFile(place));
    if path_parent(place) is Some {
        assert(f[0] == StepView::EnsureDir(path_parent(place)->Some_0));
    }
}

proof fn entry_binds(
    root: Seq<u8>,
    entries: Seq<DeviceEntry>,
    source: Seq<u8>,
    target: Seq<u8>,
    tree: bool,
)
    ensures
        bind_entries(root, entries).contains(StepView::Bind(source, target, tree)) <==> {
            &&& !tree
            &&& exists|j: int|
                {
                    &&& 0 <= j < entries.len()
                    &&& binds_entry(root, #[trigger] entries[j], source, target)
                }
        },
    decreases entries.len(),
{
    let item = StepView::Bind(source, target, tree);
    if entries.len() > 0 {
        let init = entries.drop_last();
        let entry = entries.last();
        entry_binds(root, init, source, target, tree);
        let from = path_joined(raw("/dev"@), entry.name@);
        let place = path_joined(path_joined(root, raw("dev"@)), entry.name@);
        let added = if_there(wanted(entry), bind_file(from, place));
        both_hold(bind_entries(root, init), added, item);
        group_items(KernelFs::Proc, from, place, item);
        if bind_entries(root, init).contains(item) {
            let j = choose|j: int|
                0 <= j < init.len() && binds_entry(root, #[trigger] init[j], source, target);
            assert(entries[j] == init[j]);
        }
        if added.contains(item) {
            assert(binds_entry(root, entries[entries.len() - 1], source, target));
        }
        if !tree && exists|j: int|
            0 <= j < entries.len() && binds_entry(root, #[trigger] entries[j], source, target) {
            let j = choose|j: int|
                0 <= j < entries.len() && binds_entry(root, #[trigger] entries[j], source, target);
            if j < init.len() {
                assert(init[j] == entries[j]);
            }
        }
    }
}

/// Whether an entry of the directory of devices is one that is shown, from
/// `source` at `target`: it is no directory, and its name begins with `nvidia`.
pub open spec fn binds_entry(
    root: Seq<u8>,
    entry: DeviceEntry,
    source: Seq<u8>,
    target: Seq<u8>,
) -> bool {
    &&& !entry.is_dir
    &&& "nvidia"@.is_prefix_of(lossy_text(entry.name@))
    &&& source == path_joined(encode_utf8("/dev"@), entry.name@)
    &&& target == path_joined(path_joined(root, encode_utf8("dev"@)), entry.name@)
}

/// Whether a device that every process expects is shown from `source` at
/// `target`.
pub open spec fn binds_device(
    root: Seq<u8>,
    device: Seq<char>,
    source: Seq<u8>,
    target: Seq<u8>,
) -> bool {
    &&& source == encode_utf8("/dev/"@ + device)
    &&& target == path_joined(path_joined(root, encode_utf8("dev"@)), encode_utf8(device))
}

/// What is shown in the runner, and nothing else is: the five devices that every
/// process expects; of the accelerators each that the host has, whatever else it
/// has; the files of the models; and the home directory where it is one. What is
/// mounted below a directory is shown too.
pub proof fn everything_that_is_shown(
    paths: PathsView,
    host: HostDevices,
    source: Seq<u8>,
    target: Seq<u8>,
    tree: bool,
)
    ensures
        all_steps(paths, host).contains(StepView::Bind(source, target, tree)) <==> {
            let root = paths.runner_root;
            ||| !tree && {
                ||| binds_device(root, "null"@, source, target)
                ||| binds_device(root, "zero"@, source, target)
                ||| binds_device(root, "full"@, source, target)
                ||| binds_device(root, "random"@, source, target)
                ||| binds_device(root, "urandom"@, source, target)
            }
            ||| {
                &&& host.has_kfd
                &&& !tree
                &&& source == encode_utf8("/dev/kfd"@)
                &&& target == path_joined(root, encode_utf8("dev/kfd"@))
            }
            ||| {
                &&& host.has_dri
                &&& tree
                &&& source == encode_utf8("/dev/dri"@)
                &&& target == path_joined(root, encode_utf8("dev/dri"@))
            }
            ||| {
                &&& host.has_accel
                &&& tree
                &&& source == encode_utf8("/dev/accel"@)
                &&& target == path_joined(root, encode_utf8("dev/accel"@))
            }
            ||| !tree && exists|j: int|
                {
                    &&& 0 <= j < host.entries@.len()
                    &&& binds_entry(root, #[trigger] host.entries@[j], source, target)
                }
            ||| {
                &&& tree
                &&& source == paths.files_root
                &&& target == path_joined(root, encode_utf8("mnt"@))
            }
            ||| {
                &&& tree
                &&& host.home is Some
                &&& host.home_is_dir
                &&& source == host.home->Some_0@
                &&& target == path_joined(root, encode_utf8("root"@))
            }
        },
{
    let root = paths.runner_root;
    let item = StepView::Bind(source, target, tree);
    let dev = path_joined(root, raw("dev"@));
    all_groups(paths, host, item);
    first_groups(root, host, item);
    entry_binds(root, host.entries@, source, target, tree);
    group_items(KernelFs::Proc, raw("/dev/"@ + "null"@), path_joined(dev, raw("null"@)), item);
    group_items(KernelFs::Proc, raw("/dev/"@ + "zero"@), path_joined(dev, raw("zero"@)), item);
    group_items(KernelFs::Proc, raw("/dev/"@ + "full"@), path_joined(dev, raw("full"@)), item);
    group_items(KernelFs::Proc, raw("/dev/"@ + "random"@), path_joined(dev, raw("random"@)), item);
    group_items(KernelFs::Proc, raw("/dev/"@ + "urandom"@), path_joined(dev, raw("urandom"@)), item);
    group_items(KernelFs::Proc, raw("/dev/kfd"@), path_joined(root, raw("dev/kfd"@)), item);
    group_items(KernelFs::Proc, raw("/dev/dri"@), path_joined(root, raw("dev/dri"@)), item);
    group_items(KernelFs::Proc, raw("/dev/accel"@), path_joined(root, raw("dev/accel"@)), item);
    group_items(KernelFs::Proc, paths.files_root, path_joined(root, raw("mnt"@)), item);
    group_items(KernelFs::Proc, Seq::empty(), path_joined(root, raw("proc"@)), item);
    group_items(KernelFs::Devpts, Seq::empty(), path_joined(root, raw("dev/pts"@)), item);
    group_items(KernelFs::Tmpfs, Seq::empty(), path_joined(root, raw("dev/shm"@)), item);
    group_items(KernelFs::Tmpfs, Seq::empty(), path_joined(root, raw("tmp"@)), item);
    if host.home is Some {
        group_items(KernelFs::Proc, host.home->Some_0@, path_joined(root, raw("root"@)), item);
    }
}

/// Relative places of other lengths below a path are other places.
proof fn other_places(root: Seq<u8>, a: Seq<char>, b: Seq<char>)
    requires
        is_ascii_chars(a),
        is_ascii_chars(b),
        a.len() > 0,
        b.len() > 0,
        a[0] != '/',
        b[0] != '/',
        a.len() != b.len(),
    ensures
        path_joined(root, encode_utf8(a)) != path_joined(root, encode_utf8(b)),
        encode_utf8(a) != encode_utf8(b),
{
    is_ascii_chars_encode_utf8(a);
    is_ascii_chars_encode_utf8(b);
    first_byte(a);
    first_byte(b);
    assert(path_joined(root, encode_utf8(a)).len() - a.len() == path_joined(
        root,
        encode_utf8(b),
    ).len() - b.len());
}

proof fn first_byte(name: Seq<char>)
    requires
        is_ascii_chars(name),
        name.len() > 0,
    ensures
        encode_utf8(name).len() == name.len(),
        encode_utf8(name)[0] == SEPARATOR <==> name[0] == '/',
{
    is_ascii_chars_encode_utf8(name);
    is_ascii_chars_nat_bound(name);
    assert(encode_utf8(name)[0] == name[0] as u8);
    assert((name[0] as u8) as int == name[0] as int);
}

/// The graphics devices of the host are shown in the runner, with what is below
/// them, if and only if the host has them, whatever other devices it has.
pub proof fn graphics_are_shown_if_there(paths: PathsView, host: HostDevices)
    ensures
        all_steps(paths, host).contains(
            StepView::Bind(
                encode_utf8("/dev/dri"@),
                path_joined(paths.runner_root, encode_utf8("dev/dri"@)),
                true,
            ),
        ) <==> host.has_dri,
{
    let source = encode_utf8("/dev/dri"@);
    let target = path_joined(paths.runner_root, encode_utf8("dev/dri"@));
    everything_that_is_shown(paths, host, source, target, true);
    reveal_strlit("/dev/dri");
    reveal_strlit("/dev/accel");
    reveal_strlit("dev/dri");
    reveal_strlit("mnt");
    reveal_strlit("root");
    first_byte("/dev/dri"@);
    first_byte("/dev/accel"@);
    other_places(paths.runner_root, "dev/dri"@, "mnt"@);
    other_places(paths.runner_root, "dev/dri"@, "root"@);
}

/// The accelerators of the host are shown in the runner, with what is below
/// them, if and only if the host has them, whatever other devices it has.
pub proof fn accelerators_are_shown_if_there(paths: PathsView, host: HostDevices)
    ensures
        all_steps(paths, host).contains(
            StepView::Bind(
                encode_utf8("/dev/accel"@),
                path_joined(paths.runner_root, encode_utf8("dev/accel"@)),
                true,
            ),
        ) <==> host.has_accel,
{
    let source = encode_utf8("/dev/accel"@);
    let target = path_joined(paths.runner_root, encode_utf8("dev/accel"@));
    everything_that_is_shown(paths, host, source, target, true);
    reveal_strlit("/dev/dri");
    reveal_strlit("/dev/accel");
    reveal_strlit("dev/accel");
    reveal_strlit("mnt");
    reveal_strlit("root");
    first_byte("/dev/dri"@);
    first_byte("/dev/accel"@);
    other_places(paths.runner_root, "dev/accel"@, "mnt"@);
    other_places(paths.runner_root, "dev/accel"@, "root"@);
}

/// The compute device of the host is shown in the runner if and only if the host
/// has it, whatever other devices it has; no entry of `/dev` of that name begins
/// with `nvidia`.
pub proof fn compute_device_is_shown_if_there(paths: PathsView, host: HostDevices)
    requires
        forall|j: int|
            0 <= j < host.entries@.len() && path_joined(
                encode_utf8("/dev"@),
                (#[trigger] host.entries@[j]).name@,
            ) == encode_utf8("/dev/kfd"@) ==> !"nvidia"@.is_prefix_of(
                lossy_text(host.entries@[j].name@),
            ),
    ensures
        all_steps(paths, host).contains(
            StepView::Bind(
                encode_utf8("/dev/kfd"@),
                path_joined(paths.runner_root, encode_utf8("dev/kfd"@)),
                false,
            ),
        ) <==> host.has_kfd,
{
    let source = encode_utf8("/dev/kfd"@);
    let target = path_joined(paths.runner_root, encode_utf8("dev/kfd"@));
    everything_that_is_shown(paths, host, source, target, false);
    reveal_strlit("/dev/kfd");
    reveal_strlit("/dev/");
    reveal_strlit("null");
    reveal_strlit("zero");
    reveal_strlit("full");
    reveal_strlit("random");
    reveal_strlit("urandom");
    first_byte("/dev/kfd"@);
    first_byte("/dev/"@ + "null"@);
    first_byte("/dev/"@ + "zero"@);
    first_byte("/dev/"@ + "full"@);
    first_byte("/dev/"@ + "random"@);
    first_byte("/dev/"@ + "urandom"@);
}

/// Every entry of `/dev` that is no directory and whose name begins with
/// `nvidia` is shown in the runner under its name, whatever other devices the
/// host has.
pub proof fn vendor_devices_are_shown(paths: PathsView, host: HostDevices, j: int)
    requires
        0 <= j < host.entries@.len(),
        !host.entries@[j].is_dir,
        "nvidia"@.is_prefix_of(lossy_text(host.entries@[j].name@)),
    ensures
        all_steps(paths, host).contains(
            StepView::Bind(
                path_joined(encode_utf8("/dev"@), host.entries@[j].name@),
                path_joined(
                    path_joined(paths.runner_root, encode_utf8("dev"@)),
                    host.entries@[j].name@,
                ),
                false,
            ),
        ),
{
    let source = path_joined(encode_utf8("/dev"@), host.entries@[j].name@);
    let target = path_joined(
        path_joined(paths.runner_root, encode_utf8("dev"@)),
        host.entries@[j].name@,
    );
    assert(binds_entry(paths.runner_root, host.entries@[j], source, target));
    everything_that_is_shown(paths, host, source, target, false);
}

/// The home directory is shown in the runner if and only if there is one; where
/// not, a note says so. There are no other notes.
pub proof fn home_is_shown_or_noted(paths: PathsView, host: HostDevices, note: Seq<char>)
    ensures
        host.home is Some && host.home_is_dir ==> all_steps(paths, host).contains(
            StepView::Bind(
                host.home->Some_0@,
                path_joined(paths.runner_root, encode_utf8("root"@)),
                true,
            ),
        ),
        all_steps(paths, host).contains(StepView::Note(note)) <==> match host.home {
            None => note == "HOME environment variable is not set"@,
            Some(home) => !host.home_is_dir && note == "HOME does not point to a directory: "@
                + lossy_text(home@),
        },
{
    let root = paths.runner_root;
    let item = StepView::Note(note);
    if host.home is Some && host.home_is_dir {
        everything_that_is_shown(
            paths,
            host,
            host.home->Some_0@,
            path_joined(root, encode_utf8("root"@)),
            true,
        );
    }
    other_items(paths, host, item);
    let home = bind_home(root, host);
    if !(host.home is Some && host.home_is_dir) {
        assert(home.len() == 1);
        assert(home.contains(home[0]));
    } else {
        group_items(KernelFs::Proc, host.home->Some_0@, path_joined(root, raw("root"@)), item);
    }
}

/// What is neither a bind nor a directory nor a file stands among the mounts of
/// kernel file systems, or among the steps for the home.
proof fn other_items(paths: PathsView, host: HostDevices, item: StepView)
    requires
        item is Note || item is MountFs || item is MakePrivate,
    ensures
        ({
            let root = paths.runner_root;
            all_steps(paths, host).contains(item) <==> {
                ||| item == StepView::MakePrivate
                ||| item == StepView::MountFs(KernelFs::Proc, path_joined(root, raw("proc"@)))
                ||| item == StepView::MountFs(KernelFs::Devpts, path_joined(root, raw("dev/pts"@)))
                ||| item == StepView::MountFs(KernelFs::Tmpfs, path_joined(root, raw("dev/shm"@)))
                ||| item == StepView::MountFs(KernelFs::Tmpfs, path_joined(root, raw("tmp"@)))
                ||| bind_home(root, host).contains(item)
            }
        }),
{
    let root = paths.runner_root;
    let dev = path_joined(root, raw("dev"@));
    all_groups(paths, host, item);
    first_groups(root, host, item);
    entries_only_bind(root, host.entries@, item);
    group_items(KernelFs::Proc, raw("/dev/"@ + "null"@), path_joined(dev, raw("null"@)), item);
    group_items(KernelFs::Proc, raw("/dev/"@ + "zero"@), path_joined(dev, raw("zero"@)), item);
    group_items(KernelFs::Proc, raw("/dev/"@ + "full"@), path_joined(dev, raw("full"@)), item);
    group_items(KernelFs::Proc, raw("/dev/"@ + "random"@), path_joined(dev, raw("random"@)), item);
    group_items(KernelFs::Proc, raw("/dev/"@ + "urandom"@), path_joined(dev, raw("urandom"@)), item);
    group_items(KernelFs::Proc, raw("/dev/kfd"@), path_joined(root, raw("dev/kfd"@)), item);
    group_items(KernelFs::Proc, raw("/dev/dri"@), path_joined(root, raw("dev/dri"@)), item);
    group_items(KernelFs::Proc, raw("/dev/accel"@), path_joined(root, raw("dev/accel"@)), item);
    group_items(KernelFs::Proc, paths.files_root, path_joined(root, raw("mnt"@)), item);
    group_items(KernelFs::Proc, Seq::empty(), path_joined(root, raw("proc"@)), item);
    group_items(KernelFs::Devpts, Seq::empty(), path_joined(root, raw("dev/pts"@)), item);
    group_items(KernelFs::Tmpfs, Seq::empty(), path_joined(root, raw("dev/shm"@)), item);
    group_items(KernelFs::Tmpfs, Seq::empty(), path_joined(root, raw("tmp"@)), item);
}

proof fn entries_only_bind(root: Seq<u8>, entries: Seq<DeviceEntry>, item: StepView)
    requires
        item is Note || item is MountFs || item is MakePrivate,
    ensures
        !bind_entries(root, entries).contains(item),
    decreases entries.len(),
{
    if entries.len() > 0 {
        let init = entries.drop_last();
        let entry = entries.last();
        entries_only_bind(root, init, item);
        let from = path_joined(raw("/dev"@), entry.name@);
        let place = path_joined(path_joined(root, raw("dev"@)), entry.name@);
        both_hold(
            bind_entries(root, init),
            if_there(wanted(entry), bind_file(from, place)),
            item,
        );
        group_items(KernelFs::Proc, from, place, item);
    }
}

/// The file systems of the kernel that are mounted in the runner, and where: one
/// for processes, one for terminals, and two for what is kept in memory.
pub proof fn kernel_file_systems_are_mounted(
    paths: PathsView,
    host: HostDevices,
    fs: KernelFs,
    target: Seq<u8>,
)
    ensures
        all_steps(paths, host).contains(StepView::MountFs(fs, target)) <==> {
            let root = paths.runner_root;
            match fs {
                KernelFs::Proc => target == path_joined(root, encode_utf8("proc"@)),
                KernelFs::Devpts => target == path_joined(root, encode_utf8("dev/pts"@)),
                KernelFs::Tmpfs => target == path_joined(root, encode_utf8("dev/shm"@)) || target
                    == path_joined(root, encode_utf8("tmp"@)),
            }
        },
{
    let root = paths.runner_root;
    let item = StepView::MountFs(fs, target);
    other_items(paths, host, item);
    if host.home is Some {
        group_items(KernelFs::Proc, host.home->Some_0@, path_joined(root, raw("root"@)), item);
    }
}

/// Whether everything that is mounted has been made room for right before: a
/// directory for a directory or a file system, and for a file the directory that
/// it is in and the file.
#[verifier::opaque]
pub open spec fn prepared(steps: Seq<StepView>) -> bool {
    forall|i: int|
        0 <= i < steps.len() ==> match #[trigger] steps[i] {
            StepView::MountFs(_, target) => i >= 1 && steps[i - 1] == StepView::EnsureDir(target),
            StepView::Bind(_, target, true) => i >= 1 && steps[i - 1] == StepView::EnsureDir(
                target,
            ),
            StepView::Bind(_, target, false) => {
                &&& i >= 1
                &&& steps[i - 1] == StepView::EnsureFile(target)
                &&& path_parent(target) is Some ==> i >= 2 && steps[i - 2] == StepView::EnsureDir(
                    path_parent(target)->Some_0,
                )
            },
            _ => true,
        }
}

proof fn both_are_prepared(first: Seq<StepView>, second: Seq<StepView>)
    requires
        prepared(first),
        prepared(second),
    ensures
        prepared(first + second),
{
    reveal(prepared);
    let both = first + second;
    assert forall|i: int| 0 <= i < both.len() implies match #[trigger] both[i] {
        StepView::MountFs(_, target) => i >= 1 && both[i - 1] == StepView::EnsureDir(target),
        StepView::Bind(_, target, true) => i >= 1 && both[i - 1] == StepView::EnsureDir(target),
        StepView::Bind(_, target, false) => {
            &&& i >= 1
            &&& both[i - 1] == StepView::EnsureFile(target)
            &&& path_parent(target) is Some ==> i >= 2 && both[i - 2] == StepView::EnsureDir(
                path_parent(target)->Some_0,
            )
        },
        _ => true,
    } by {
        if i < first.len() {
            assert(both[i] == first[i]);
        } else {
            assert(both[i] == second[i - first.len()]);
        }
    }
}

proof fn groups_are_prepared(fs: KernelFs, source: Seq<u8>, place: Seq<u8>, there: bool)
    ensures
        prepared(mount_fs(fs, place)),
        prepared(bind_file(source, place)),
        prepared(bind_tree(source, place)),
        prepared(if_there(there, bind_file(source, place))),
        prepared(if_there(there, bind_tree(source, place))),
{
    reveal(prepared);
}

proof fn entries_are_prepared(root: Seq<u8>, entries: Seq<DeviceEntry>)
    ensures
        prepared(bind_entries(root, entries)),
    decreases entries.len(),
{
    if entries.len() > 0 {
        let init = entries.drop_last();
        let entry = entries.last();
        entries_are_prepared(root, init);
        let from = path_joined(raw("/dev"@), entry.name@);
        let place = path_joined(path_joined(root, raw("dev"@)), entry.name@);
        groups_are_prepared(KernelFs::Proc, from, place, wanted(entry));
        both_are_prepared(
            bind_entries(root, init),
            if_there(wanted(entry), bind_file(from, place)),
        );
    } else {
        reveal(prepared);
    }
}

proof fn home_is_prepared(root: Seq<u8>, host: HostDevices)
    ensures
        prepared(bind_home(root, host)),
{
    if host.home is Some && host.home_is_dir {
        groups_are_prepared(
            KernelFs::Proc,
            host.home->Some_0@,
            path_joined(root, raw("root"@)),
            true,
        );
    } else {
        reveal(prepared);
    }
}

proof fn first_groups_are_prepared(root: Seq<u8>, host: HostDevices)
    ensures
        prepared(before_entries(root, host)),
{
    let a0 = seq![StepView::MakePrivate];
    let b1 = mount_fs(KernelFs::Proc, path_joined(root, raw("proc"@)));
    let b7 = mount_fs(KernelFs::Devpts, path_joined(root, raw("dev/pts"@)));
    let b8 = mount_fs(KernelFs::Tmpfs, path_joined(root, raw("dev/shm"@)));
    let b9 = mount_fs(KernelFs::Tmpfs, path_joined(root, raw("tmp"@)));
    let kfd = bind_file(raw("/dev/kfd"@), path_joined(root, raw("dev/kfd"@)));
    let dri = bind_tree(raw("/dev/dri"@), path_joined(root, raw("dev/dri"@)));
    let accel = bind_tree(raw("/dev/accel"@), path_joined(root, raw("dev/accel"@)));
    assert(prepared(a0)) by {
        reveal(prepared);
    }
    groups_are_prepared(KernelFs::Proc, raw(""@), path_joined(root, raw("proc"@)), true);
    groups_are_prepared(KernelFs::Devpts, raw(""@), path_joined(root, raw("dev/pts"@)), true);
    groups_are_prepared(KernelFs::Tmpfs, raw(""@), path_joined(root, raw("dev/shm"@)), true);
    groups_are_prepared(KernelFs::Tmpfs, raw(""@), path_joined(root, raw("tmp"@)), true);
    groups_are_prepared(
        KernelFs::Proc,
        raw("/dev/kfd"@),
        path_joined(root, raw("dev/kfd"@)),
        host.has_kfd,
    );
    groups_are_prepared(
        KernelFs::Proc,
        raw("/dev/dri"@),
        path_joined(root, raw("dev/dri"@)),
        host.has_dri,
    );
    groups_are_prepared(
        KernelFs::Proc,
        raw("/dev/accel"@),
        path_joined(root, raw("dev/accel"@)),
        host.has_accel,
    );
    both_are_prepared(a0, b1);
    let a1 = a0 + b1;
    device_is_prepared(root, a1, "null"@);
    let a2 = a1 + bind_device(root, "null"@);
    device_is_prepared(root, a2, "zero"@);
    let a3 = a2 + bind_device(root, "zero"@);
    device_is_prepared(root, a3, "full"@);
    let a4 = a3 + bind_device(root, "full"@);
    device_is_prepared(root, a4, "random"@);
    let a5 = a4 + bind_device(root, "random"@);
    device_is_prepared(root, a5, "urandom"@);
    let a6 = a5 + bind_device(root, "urandom"@);
    both_are_prepared(a6, b7);
    let a7 = a6 + b7;
    both_are_prepared(a7, b8);
    let a8 = a7 + b8;
    both_are_prepared(a8, b9);
    let a9 = a8 + b9;
    both_are_prepared(a9, if_there(host.has_kfd, kfd));
    let a10 = a9 + if_there(host.has_kfd, kfd);
    both_are_prepared(a10, if_there(host.has_dri, dri));
    let a11 = a10 + if_there(host.has_dri, dri);
    both_are_prepared(a11, if_there(host.has_accel, accel));
}

proof fn device_is_prepared(root: Seq<u8>, steps: Seq<StepView>, device: Seq<char>)
    requires
        prepared(steps),
    ensures
        prepared(steps + bind_device(root, device)),
{
    groups_are_prepared(
        KernelFs::Proc,
        raw("/dev/"@ + device),
        path_joined(path_joined(root, raw("dev"@)), raw(device)),
        true,
    );
    both_are_prepared(steps, bind_device(root, device));
}

/// Before anything else, changes to mounts are kept from the rest of the system;
/// and before something is mounted, there is room for it.
pub proof fn mounts_are_prepared(paths: PathsView, host: HostDevices)
    ensures
        all_steps(paths, host)[0] == StepView::MakePrivate,
        prepared(all_steps(paths, host)),
{
    let root = paths.runner_root;
    let start = before_entries(root, host);
    let entries = bind_entries(root, host.entries@);
    let files = bind_tree(paths.files_root, path_joined(root, raw("mnt"@)));
    first_groups_are_prepared(root, host);
    entries_are_prepared(root, host.entries@);
    groups_are_prepared(
        KernelFs::Proc,
        paths.files_root,
        path_joined(root, raw("mnt"@)),
        true,
    );
    home_is_prepared(root, host);
    both_are_prepared(start, entries);
    both_are_prepared(start + entries, files);
    both_are_prepared(start + entries + files, bind_home(root, host));
}

/// How many entries of the directory of devices are shown.
pub open spec fn entries_shown(entries: Seq<DeviceEntry>) -> int {
    entries.filter(
        |entry: DeviceEntry|
            !entry.is_dir && "nvidia"@.is_prefix_of(lossy_text(entry.name@)),
    ).len() as int
}

proof fn places_add_up(first: Seq<StepView>, second: Seq<StepView>)
    ensures
        places(first + second) == places(first) + places(second),
{
    let mounts = |step: StepView| mounts_at(step) is Some;
    Seq::filter_distributes_over_add(first, second, mounts);
    assert(places(first + second) =~= places(first) + places(second));
}

proof fn places_of_groups(fs: KernelFs, source: Seq<u8>, place: Seq<u8>, there: bool)
    ensures
        places(mount_fs(fs, place)) == seq![place],
        places(bind_file(source, place)) == seq![place],
        places(bind_tree(source, place)) == seq![place],
        places(if_there(there, bind_file(source, place))).len() == if there {
            1int
        } else {
            0
        },
        places(if_there(there, bind_tree(source, place))).len() == if there {
            1int
        } else {
            0
        },
{
    reveal_with_fuel(Seq::filter, 4);
    let dir = seq![StepView::EnsureDir(place)];
    let m = mount_fs(fs, place);
    assert(m.drop_last() =~= dir);
    assert(dir.drop_last() =~= Seq::empty());
    assert(places(m) =~= seq![place]);
    let t = bind_tree(source, place);
    assert(t.drop_last() =~= dir);
    assert(places(t) =~= seq![place]);
    let f = bind_file(source, place);
    let g = f.drop_last();
    let h = g.drop_last();
    assert(g.last() == StepView::EnsureFile(place));
    if path_parent(place) is Some {
        assert(h =~= seq![StepView::EnsureDir(path_parent(place)->Some_0)]);
        assert(h.drop_last() =~= Seq::empty());
    } else {
        assert(h =~= Seq::empty());
    }
    assert(places(f) =~= seq![place]);
    assert(places(Seq::<StepView>::empty()) =~= Seq::empty());
}

proof fn places_of_entries(root: Seq<u8>, entries: Seq<DeviceEntry>)
    ensures
        places(bind_entries(root, entries)).len() == entries_shown(entries),
    decreases entries.len(),
{
    reveal(Seq::filter);
    if entries.len() > 0 {
        let init = entries.drop_last();
        let entry = entries.last();
        places_of_entries(root, init);
        let from = path_joined(raw("/dev"@), entry.name@);
        let place = path_joined(path_joined(root, raw("dev"@)), entry.name@);
        places_of_groups(KernelFs::Proc, from, place, wanted(entry));
        places_add_up(bind_entries(root, init), if_there(wanted(entry), bind_file(from, place)));
    } else {
        assert(places(Seq::<StepView>::empty()) =~= Seq::empty());
    }
}

proof fn count_with(first: Seq<StepView>, second: Seq<StepView>, n: int, m: int)
    requires
        places(first).len() == n,
        places(second).len() == m,
    ensures
        places(first + second).len() == n + m,
{
    places_add_up(first, second);
}

proof fn count_with_device(root: Seq<u8>, steps: Seq<StepView>, device: Seq<char>, n: int)
    requires
        places(steps).len() == n,
    ensures
        places(steps + bind_device(root, device)).len() == n + 1,
{
    places_of_groups(
        KernelFs::Proc,
        raw("/dev/"@ + device),
        path_joined(path_joined(root, raw("dev"@)), raw(device)),
        true,
    );
    places_add_up(steps, bind_device(root, device));
}

/// One where there is something, and else none.
pub open spec fn one_if(there: bool) -> int {
    if there {
        1
    } else {
        0
    }
}

/// Nothing is mounted twice: there is one mount for each of the four file systems
/// of the kernel and the five devices that every process expects, for each
/// accelerator and each entry that is shown, for the files of the models, and for
/// the home.
pub proof fn nothing_is_mounted_twice(paths: PathsView, host: HostDevices)
    ensures
        places(all_steps(paths, host)).len() == 10 + one_if(host.has_kfd) + one_if(host.has_dri)
            + one_if(host.has_accel) + entries_shown(host.entries@) + one_if(
            host.home is Some && host.home_is_dir,
        ),
{
    let root = paths.runner_root;
    let a0 = seq![StepView::MakePrivate];
    let b1 = mount_fs(KernelFs::Proc, path_joined(root, raw("proc"@)));
    let b7 = mount_fs(KernelFs::Devpts, path_joined(root, raw("dev/pts"@)));
    let b8 = mount_fs(KernelFs::Tmpfs, path_joined(root, raw("dev/shm"@)));
    let b9 = mount_fs(KernelFs::Tmpfs, path_joined(root, raw("tmp"@)));
    let kfd = if_there(
        host.has_kfd,
        bind_file(raw("/dev/kfd"@), path_joined(root, raw("dev/kfd"@))),
    );
    let dri = if_there(
        host.has_dri,
        bind_tree(raw("/dev/dri"@), path_joined(root, raw("dev/dri"@))),
    );
    let accel = if_there(
        host.has_accel,
        bind_tree(raw("/dev/accel"@), path_joined(root, raw("dev/accel"@))),
    );
    let files = bind_tree(paths.files_root, path_joined(root, raw("mnt"@)));
    places_of_groups(KernelFs::Proc, raw(""@), path_joined(root, raw("proc"@)), true);
    places_of_groups(KernelFs::Devpts, raw(""@), path_joined(root, raw("dev/pts"@)), true);
    places_of_groups(KernelFs::Tmpfs, raw(""@), path_joined(root, raw("dev/shm"@)), true);
    places_of_groups(KernelFs::Tmpfs, raw(""@), path_joined(root, raw("tmp"@)), true);
    places_of_groups(
        KernelFs::Proc,
        raw("/dev/kfd"@),
        path_joined(root, raw("dev/kfd"@)),
        host.has_kfd,
    );
    places_of_groups(
        KernelFs::Proc,
        raw("/dev/dri"@),
        path_joined(root, raw("dev/dri"@)),
        host.has_dri,
    );
    places_of_groups(
        KernelFs::Proc,
        raw("/dev/accel"@),
        path_joined(root, raw("dev/accel"@)),
        host.has_accel,
    );
    places_of_groups(KernelFs::Proc, paths.files_root, path_joined(root, raw("mnt"@)), true);
    places_of_entries(root, host.entries@);
    assert(places(a0).len() == 0) by {
        reveal_with_fuel(Seq::filter, 2);
        assert(a0.drop_last() =~= Seq::empty());
    }
    count_with(a0, b1, 0, 1);
    let a1 = a0 + b1;
    count_with_device(root, a1, "null"@, 1);
    let a2 = a1 + bind_device(root, "null"@);
    count_with_device(root, a2, "zero"@, 2);
    let a3 = a2 + bind_device(root, "zero"@);
    count_with_device(root, a3, "full"@, 3);
    let a4 = a3 + bind_device(root, "full"@);
    count_with_device(root, a4, "random"@, 4);
    let a5 = a4 + bind_device(root, "random"@);
    count_with_device(root, a5, "urandom"@, 5);
    let a6 = a5 + bind_device(root, "urandom"@);
    count_with(a6, b7, 6, 1);
    let a7 = a6 + b7;
    count_with(a7, b8, 7, 1);
    let a8 = a7 + b8;
    count_with(a8, b9, 8, 1);
    let a9 = a8 + b9;
    count_with(a9, kfd, 9, one_if(host.has_kfd));
    let a10 = a9 + kfd;
    count_with(a10, dri, 9 + one_if(host.has_kfd), one_if(host.has_dri));
    let a11 = a10 + dri;
    count_with(
        a11,
        accel,
        9 + one_if(host.has_kfd) + one_if(host.has_dri),
        one_if(host.has_accel),
    );
    let a12 = a11 + accel;
    let entries = bind_entries(root, host.entries@);
    let n = 9 + one_if(host.has_kfd) + one_if(host.has_dri) + one_if(host.has_accel);
    count_with(a12, entries, n, entries_shown(host.entries@));
    count_with(a12 + entries, files, n + entries_shown(host.entries@), 1);
    let home = bind_home(root, host);
    if host.home is Some && host.home_is_dir {
        places_of_groups(
            KernelFs::Proc,
            host.home->Some_0@,
            path_joined(root, raw("root"@)),
            true,
        );
    } else {
        assert(places(home).len() == 0) by {
            reveal_with_fuel(Seq::filter, 2);
            assert(home.drop_last() =~= Seq::empty());
        }
    }
    count_with(
        a12 + entries + files,
        home,
        n + entries_shown(host.entries@) + 1,
        one_if(host.home is Some && host.home_is_dir),
    );
}

/// The steps that have failed are told of in order, each with its reason, and
/// the notes among those that have not; what has failed has not been mounted.
pub proof fn failures_are_told(
    steps: Seq<StepView>,
    outcomes: Seq<Option<String>>,
    step: StepView,
    outcome: Option<String>,
)
    requires
        steps.len() == outcomes.len(),
    ensures
        ({
            let warnings = warnings_of(steps, outcomes);
            let mounted = mounted_by(steps, outcomes);
            let more = warnings_of(steps.push(step), outcomes.push(outcome));
            let then_mounted = mounted_by(steps.push(step), outcomes.push(outcome));
            match outcome {
                Some(error) => {
                    &&& more == warnings.push(step_warning(step, error@))
                    &&& then_mounted == mounted
                },
                None => match step {
                    StepView::Note(message) => more == warnings.push(message) && then_mounted
                        == mounted,
                    StepView::MountFs(_, target) => more == warnings && then_mounted
                        == mounted.push(target),
                    StepView::Bind(_, target, _) => more == warnings && then_mounted
                        == mounted.push(target),
                    _ => more == warnings && then_mounted == mounted,
                },
            }
        }),
        warnings_of(Seq::empty(), outcomes) == Seq::<Seq<char>>::empty(),
        mounted_by(Seq::empty(), outcomes) == Seq::<Seq<u8>>::empty(),
{
    assert(steps.push(step).drop_last() =~= steps);
    later_outcomes_do_not_matter(steps, outcomes, outcome);
}

proof fn later_outcomes_do_not_matter(
    steps: Seq<StepView>,
    outcomes: Seq<Option<String>>,
    outcome: Option<String>,
)
    requires
        steps.len() <= outcomes.len(),
    ensures
        warnings_of(steps, outcomes.push(outcome)) == warnings_of(steps, outcomes),
        mounted_by(steps, outcomes.push(outcome)) == mounted_by(steps, outcomes),
    decreases steps.len(),
{
    if steps.len() > 0 {
        later_outcomes_do_not_matter(steps.drop_last(), outcomes, outcome);
    }
}

/// A failure is told with what failed, where, and why.
pub proof fn warnings_name_what_failed(
    path: Seq<u8>,
    source: Seq<u8>,
    tree: bool,
    error: Seq<char>,
)
    ensures
        step_warning(StepView::MakePrivate, error) == "failed to make mounts private: "@ + error,
        step_warning(StepView::EnsureDir(path), error) == "failed to create directory "@
            + lossy_text(path) + ": "@ + error,
        step_warning(StepView::EnsureFile(path), error) == "failed to create file target "@
            + lossy_text(path) + ": "@ + error,
        step_warning(StepView::MountFs(KernelFs::Proc, path), error) == "failed to mount "@
            + "proc"@ + " at "@ + lossy_text(path) + ": "@ + error,
        step_warning(StepView::MountFs(KernelFs::Devpts, path), error) == "failed to mount "@
            + "devpts"@ + " at "@ + lossy_text(path) + ": "@ + error,
        step_warning(StepView::MountFs(KernelFs::Tmpfs, path), error) == "failed to mount "@
            + "tmpfs"@ + " at "@ + lossy_text(path) + ": "@ + error,
        step_warning(StepView::Bind(source, path, tree), error) == "failed to bind "@ + lossy_text(
            source,
        ) + " -> "@ + lossy_text(path) + ": "@ + error,
{
}

/// Mounts are private with all that is below them; a file or directory is shown
/// with what is below it if and only if the step says so; no program gets rights
/// from a file system of the kernel, programs can be run on none but those in
/// memory, and devices can be used on none but that of the terminals.
pub proof fn mounts_have_their_rights(fs: KernelFs, source: Seq<u8>, path: Seq<u8>, tree: bool)
    ensures
        ({
            let flags = flags_of(StepView::MakePrivate);
            &&& flags.private && flags.recursive
            &&& !flags.bind && !flags.no_suid && !flags.no_exec && !flags.no_devices
        }),
        ({
            let flags = flags_of(StepView::Bind(source, path, tree));
            &&& flags.bind && flags.recursive == tree
            &&& !flags.private && !flags.no_suid && !flags.no_exec && !flags.no_devices
        }),
        ({
            let flags = flags_of(StepView::MountFs(fs, path));
            &&& flags.no_suid
            &&& flags.no_exec == (fs != KernelFs::Tmpfs)
            &&& flags.no_devices == (fs != KernelFs::Devpts)
            &&& !flags.private && !flags.bind && !flags.recursive
        }),
{
}

/// The file systems of the kernel have the names and the options that it knows.
pub proof fn kernel_file_systems_have_their_options()
    ensures
        KernelFs::Proc.text() == "proc"@,
        KernelFs::Devpts.text() == "devpts"@,
        KernelFs::Tmpfs.text() == "tmpfs"@,
        KernelFs::Proc.options_text() is None,
        KernelFs::Devpts.options_text() == Some("newinstance,ptmxmode=0666,mode=0620"@),
        KernelFs::Tmpfs.options_text() == Some("size=8G"@),
{
}

/// Where no unmount fails, what was mounted is unmounted in the reverse order,
/// each place once.
pub proof fn unmounting_without_failures(mounts: Seq<Seq<u8>>, turn: int)
    ensures
        unmounted(mounts, UnmountOutcomeView::Begun, |i: int| false, turn) == Seq::new(
            mounts.len(),
            |i: int| UnmountView::Plain(mounts[mounts.len() - 1 - i]),
        ),
{
    plain_unmounts(mounts, UnmountOutcomeView::Begun, turn);
}

proof fn plain_unmounts(mounts: Seq<Seq<u8>>, outcome: UnmountOutcomeView, turn: int)
    requires
        outcome matches UnmountOutcomeView::Plain(_, failed) ==> !failed,
    ensures
        unmounted(mounts, outcome, |i: int| false, turn) == Seq::new(
            mounts.len(),
            |i: int| UnmountView::Plain(mounts[mounts.len() - 1 - i]),
        ),
    decreases mounts.len(),
{
    let all = Seq::new(
        mounts.len(),
        |i: int| UnmountView::Plain(mounts[mounts.len() - 1 - i]),
    );
    if mounts.len() > 0 {
        let left = mounts.drop_last();
        let last = mounts.last();
        plain_unmounts(left, UnmountOutcomeView::Plain(last, false), turn + 1);
        let rest = Seq::new(left.len(), |i: int| UnmountView::Plain(left[left.len() - 1 - i]));
        assert(unmounted(mounts, outcome, |i: int| false, turn) == seq![UnmountView::Plain(last)]
            + rest);
        assert(seq![UnmountView::Plain(last)] + rest =~= all);
    } else {
        assert(all =~= Seq::empty());
    }
}

/// A place whose unmount fails is unmounted lazily right after, and then the next
/// has its turn, whatever has failed.
pub proof fn unmounting_goes_on_after_a_failure(mounts: Seq<Seq<u8>>, target: Seq<u8>)
    ensures
        unmount_step(mounts, UnmountOutcomeView::Plain(target, true)) == (
            mounts,
            UnmountView::Lazy(target),
        ),
        forall|outcome: UnmountOutcomeView|
            !(outcome matches UnmountOutcomeView::Plain(_, failed) && failed) ==> {
                let next = #[trigger] unmount_step(mounts.push(target), outcome);
                &&& next == (mounts, UnmountView::Plain(target))
                &&& unmount_step(Seq::empty(), outcome).1 is Finished
            },
{
    assert(mounts.push(target).drop_last() =~= mounts);
}

} // verus!
