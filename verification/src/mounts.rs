//! The mounts of the runner: what is set up, in which order, and what is undone.
use vstd::prelude::*;
use vstd::utf8::{encode_utf8, is_ascii_chars, is_ascii_chars_encode_utf8, is_ascii_chars_nat_bound};

use crate::paths::{PathsView, ResolvedPaths};
use crate::report::RunnerWarnings;
use crate::text::{starts_with, text2, text4, text6};
use crate::unix_path::{below, joining_stays_below, lossy_text, path_joined, path_parent, text_of_bytes, UnixPath, SEPARATOR};

verus! {

/// The file systems that the kernel provides to the runner.
#[derive(Debug, Clone, Copy, PartialEq, Eq, Structural)]
pub enum KernelFs {
    Proc,
    Devpts,
    Tmpfs,
}

impl KernelFs {
    /// The name of the file system, which is also that of its source.
    pub open spec fn text(self) -> Seq<char> {
        match self {
            KernelFs::Proc => "proc"@,
            KernelFs::Devpts => "devpts"@,
            KernelFs::Tmpfs => "tmpfs"@,
        }
    }

    /// The name of the file system, which is also that of its source.
    pub fn name(self) -> (r: &'static str)
        ensures
            r@ == self.text(),
    {
        match self {
            KernelFs::Proc => "proc",
            KernelFs::Devpts => "devpts",
            KernelFs::Tmpfs => "tmpfs",
        }
    }

    /// The options of the file system, where it has some.
    pub open spec fn options_text(self) -> Option<Seq<char>> {
        match self {
            KernelFs::Proc => None,
            KernelFs::Devpts => Some("newinstance,ptmxmode=0666,mode=0620"@),
            KernelFs::Tmpfs => Some("size=8G"@),
        }
    }

    /// The options of the file system, where it has some.
    pub fn options(self) -> (r: Option<&'static str>)
        ensures
            r is Some == self.options_text() is Some,
            r matches Some(text) ==> self.options_text() == Some(text@),
    {
        match self {
            KernelFs::Proc => None,
            KernelFs::Devpts => Some("newinstance,ptmxmode=0666,mode=0620"),
            KernelFs::Tmpfs => Some("size=8G"),
        }
    }
}

/// How something is mounted.
#[derive(Debug, Clone, Copy, PartialEq, Eq, Structural)]
pub struct MountFlags {
    /// Changes to the mount are kept from the rest of the system.
    pub private: bool,
    /// A file or directory is shown at a second place.
    pub bind: bool,
    /// With what is mounted below.
    pub recursive: bool,
    /// Programs there get no rights of their owners.
    pub no_suid: bool,
    /// Programs there cannot be run.
    pub no_exec: bool,
    /// Device files there cannot be used.
    pub no_devices: bool,
}

/// One step of setting up the runner.
#[derive(Debug)]
pub enum MountStep {
    /// Changes to mounts are kept from the rest of the system.
    MakePrivate,
    /// A directory is made, with those above it, unless it is there.
    EnsureDir { path: UnixPath },
    /// A file is made, unless something is there.
    EnsureFile { path: UnixPath },
    /// A file system of the kernel is mounted.
    MountFs { fs: KernelFs, target: UnixPath },
    /// A file or directory is shown at a second place, with what is mounted
    /// below it where `tree` says so.
    Bind { source: UnixPath, target: UnixPath, tree: bool },
    /// Something is missing.
    Note { message: String },
}

/// What a step is.
pub enum StepView {
    MakePrivate,
    EnsureDir(Seq<u8>),
    EnsureFile(Seq<u8>),
    MountFs(KernelFs, Seq<u8>),
    Bind(Seq<u8>, Seq<u8>, bool),
    Note(Seq<char>),
}

impl View for MountStep {
    type V = StepView;

    open spec fn view(&self) -> StepView {
        match self {
            MountStep::MakePrivate => StepView::MakePrivate,
            MountStep::EnsureDir { path } => StepView::EnsureDir(path@),
            MountStep::EnsureFile { path } => StepView::EnsureFile(path@),
            MountStep::MountFs { fs, target } => StepView::MountFs(*fs, target@),
            MountStep::Bind { source, target, tree } => StepView::Bind(source@, target@, *tree),
            MountStep::Note { message } => StepView::Note(message@),
        }
    }
}

pub open spec fn steps_view(steps: Seq<MountStep>) -> Seq<StepView> {
    steps.map_values(|step: MountStep| step@)
}

/// An entry of the directory of devices.
#[derive(Debug)]
pub struct DeviceEntry {
    pub name: UnixPath,
    pub is_dir: bool,
}

/// What the system has for the runner.
pub struct HostDevices {
    /// Whether `/dev/kfd` is there.
    pub has_kfd: bool,
    /// Whether `/dev/dri` is there.
    pub has_dri: bool,
    /// Whether `/dev/accel` is there.
    pub has_accel: bool,
    /// The entries of `/dev`; none where it cannot be read.
    pub entries: Vec<DeviceEntry>,
    /// The home directory of the user.
    pub home: Option<UnixPath>,
    /// Whether the home directory is one.
    pub home_is_dir: bool,
}

/// The bytes of a text.
pub open spec fn raw(text: Seq<char>) -> Seq<u8> {
    encode_utf8(text)
}

/// The steps that show a file at `target`: there has to be one already.
pub open spec fn bind_file(source: Seq<u8>, target: Seq<u8>) -> Seq<StepView> {
    let parent = match path_parent(target) {
        Some(dir) => seq![StepView::EnsureDir(dir)],
        None => Seq::empty(),
    };
    parent + seq![StepView::EnsureFile(target), StepView::Bind(source, target, false)]
}

/// The steps that show a directory at `target`: there has to be one already.
pub open spec fn bind_tree(source: Seq<u8>, target: Seq<u8>) -> Seq<StepView> {
    seq![StepView::EnsureDir(target), StepView::Bind(source, target, true)]
}

/// The steps that mount a file system of the kernel.
pub open spec fn mount_fs(fs: KernelFs, target: Seq<u8>) -> Seq<StepView> {
    seq![StepView::EnsureDir(target), StepView::MountFs(fs, target)]
}

/// The steps for a device that every process expects.
pub open spec fn bind_device(root: Seq<u8>, device: Seq<char>) -> Seq<StepView> {
    bind_file(
        raw("/dev/"@ + device),
        path_joined(path_joined(root, raw("dev"@)), raw(device)),
    )
}

/// Steps that are taken where something is there.
pub open spec fn if_there(there: bool, steps: Seq<StepView>) -> Seq<StepView> {
    if there {
        steps
    } else {
        Seq::empty()
    }
}

/// Whether an entry of the directory of devices is wanted: it is no directory,
/// and its name begins with that of the vendor.
pub open spec fn wanted(entry: DeviceEntry) -> bool {
    "nvidia"@.is_prefix_of(lossy_text(entry.name@)) && !entry.is_dir
}

/// The steps for the entries of the directory of devices that are wanted.
pub open spec fn bind_entries(root: Seq<u8>, entries: Seq<DeviceEntry>) -> Seq<StepView>
    decreases entries.len(),
{
    if entries.len() == 0 {
        Seq::empty()
    } else {
        let entry = entries.last();
        bind_entries(root, entries.drop_last()) + if_there(
            wanted(entry),
            bind_file(
                path_joined(raw("/dev"@), entry.name@),
                path_joined(path_joined(root, raw("dev"@)), entry.name@),
            ),
        )
    }
}

/// The steps for the home directory.
pub open spec fn bind_home(root: Seq<u8>, host: HostDevices) -> Seq<StepView> {
    match host.home {
        None => seq![StepView::Note("HOME environment variable is not set"@)],
        Some(home) => if host.home_is_dir {
            bind_tree(home@, path_joined(root, raw("root"@)))
        } else {
            seq![
                StepView::Note("HOME does not point to a directory: "@ + lossy_text(home@)),
            ]
        },
    }
}

/// All steps of setting up the runner, in order.
pub open spec fn all_steps(paths: PathsView, host: HostDevices) -> Seq<StepView> {
    let root = paths.runner_root;
    seq![StepView::MakePrivate] + mount_fs(KernelFs::Proc, path_joined(root, raw("proc"@)))
        + bind_device(root, "null"@) + bind_device(root, "zero"@) + bind_device(root, "full"@)
        + bind_device(root, "random"@) + bind_device(root, "urandom"@) + mount_fs(
        KernelFs::Devpts,
        path_joined(root, raw("dev/pts"@)),
    ) + mount_fs(KernelFs::Tmpfs, path_joined(root, raw("dev/shm"@))) + mount_fs(
        KernelFs::Tmpfs,
        path_joined(root, raw("tmp"@)),
    ) + if_there(
        host.has_kfd,
        bind_file(raw("/dev/kfd"@), path_joined(root, raw("dev/kfd"@))),
    ) + if_there(
        host.has_dri,
        bind_tree(raw("/dev/dri"@), path_joined(root, raw("dev/dri"@))),
    ) + if_there(
        host.has_accel,
        bind_tree(raw("/dev/accel"@), path_joined(root, raw("dev/accel"@))),
    ) + bind_entries(root, host.entries@) + bind_tree(
        paths.files_root,
        path_joined(root, raw("mnt"@)),
    ) + bind_home(root, host)
}

/// Adds a step.
fn add_step(steps: &mut Vec<MountStep>, step: MountStep)
    ensures
        steps_view(final(steps)@) == steps_view(old(steps)@).push(step@),
{
    let ghost before = steps@;
    steps.push(step);
    proof {
        assert(steps_view(steps@) =~= steps_view(before).push(step@));
    }
}

/// Adds the steps that show a file at `target`.
fn add_bind_file(steps: &mut Vec<MountStep>, source: UnixPath, target: UnixPath)
    ensures
        steps_view(final(steps)@) == steps_view(old(steps)@) + bind_file(source@, target@),
{
    let ghost before = steps_view(steps@);
    if let Some(parent) = target.parent() {
        add_step(steps, MountStep::EnsureDir { path: parent });
    }
    add_step(steps, MountStep::EnsureFile { path: target.clone() });
    let ghost ends = (source@, target@);
    add_step(steps, MountStep::Bind { source, target, tree: false });
    proof {
        assert(steps_view(steps@) =~= before + bind_file(ends.0, ends.1));
    }
}

/// Adds the steps that show a directory at `target`.
fn add_bind_tree(steps: &mut Vec<MountStep>, source: UnixPath, target: UnixPath)
    ensures
        steps_view(final(steps)@) == steps_view(old(steps)@) + bind_tree(source@, target@),
{
    let ghost before = steps_view(steps@);
    let ghost ends = (source@, target@);
    add_step(steps, MountStep::EnsureDir { path: target.clone() });
    add_step(steps, MountStep::Bind { source, target, tree: true });
    proof {
        assert(steps_view(steps@) =~= before + bind_tree(ends.0, ends.1));
    }
}

/// Adds the steps that mount a file system of the kernel.
fn add_mount_fs(steps: &mut Vec<MountStep>, fs: KernelFs, target: UnixPath)
    ensures
        steps_view(final(steps)@) == steps_view(old(steps)@) + mount_fs(fs, target@),
{
    let ghost before = steps_view(steps@);
    let ghost place = target@;
    add_step(steps, MountStep::EnsureDir { path: target.clone() });
    add_step(steps, MountStep::MountFs { fs, target });
    proof {
        assert(steps_view(steps@) =~= before + mount_fs(fs, place));
    }
}

/// Adds the steps for a device that every process expects.
fn add_bind_device(steps: &mut Vec<MountStep>, root: &UnixPath, device: &str)
    ensures
        steps_view(final(steps)@) == steps_view(old(steps)@) + bind_device(root@, device@),
{
    let source = UnixPath::from_text(text2("/dev/", device).as_str());
    add_bind_file(steps, source, root.join_text("dev").join_text(device));
}

/// Whether an entry of the directory of devices is wanted.
pub fn is_wanted_device(name: &str, is_dir: bool) -> (r: bool)
    ensures
        r == ("nvidia"@.is_prefix_of(name@) && !is_dir),
{
    starts_with(name, "nvidia") && !is_dir
}

/// Adds the steps for the entries of the directory of devices that are wanted.
fn add_bind_entries(steps: &mut Vec<MountStep>, root: &UnixPath, entries: &Vec<DeviceEntry>)
    ensures
        steps_view(final(steps)@) == steps_view(old(steps)@) + bind_entries(root@, entries@),
{
    let ghost before = steps_view(steps@);
    let dev = UnixPath::from_text("/dev");
    let inner = root.join_text("dev");
    let mut i: usize = 0;
    proof {
        assert(entries@.take(0) =~= Seq::empty());
        assert(before + bind_entries(root@, entries@.take(0)) =~= before);
    }
    while i < entries.len()
        invariant
            i <= entries@.len(),
            dev@ == raw("/dev"@),
            inner@ == path_joined(root@, raw("dev"@)),
            steps_view(steps@) == before + bind_entries(root@, entries@.take(i as int)),
        decreases entries.len() - i,
    {
        let ghost so_far = steps_view(steps@);
        let entry = &entries[i];
        let name = text_of_bytes(&entry.name.bytes);
        if is_wanted_device(name.as_str(), entry.is_dir) {
            add_bind_file(steps, dev.join(&entry.name), inner.join(&entry.name));
        }
        proof {
            let added = if_there(
                wanted(*entry),
                bind_file(path_joined(dev@, entry.name@), path_joined(inner@, entry.name@)),
            );
            assert(steps_view(steps@) =~= so_far + added);
            assert(entries@.take(i + 1).drop_last() =~= entries@.take(i as int));
            assert(entries@.take(i + 1).last() == *entry);
            assert(before + (bind_entries(root@, entries@.take(i as int)) + added) =~= (before
                + bind_entries(root@, entries@.take(i as int))) + added);
        }
        i += 1;
    }
    proof {
        assert(entries@.take(i as int) =~= entries@);
    }
}

/// What a user is told of a step that has failed, for the reason that is shown.
pub open spec fn step_warning(step: StepView, error: Seq<char>) -> Seq<char> {
    match step {
        StepView::MakePrivate => "failed to make mounts private: "@ + error,
        StepView::EnsureDir(path) => "failed to create directory "@ + lossy_text(path) + ": "@
            + error,
        StepView::EnsureFile(path) => "failed to create file target "@ + lossy_text(path) + ": "@
            + error,
        StepView::MountFs(fs, target) => "failed to mount "@ + fs.text() + " at "@ + lossy_text(
            target,
        ) + ": "@ + error,
        StepView::Bind(source, target, _) => "failed to bind "@ + lossy_text(source) + " -> "@
            + lossy_text(target) + ": "@ + error,
        StepView::Note(message) => message,
    }
}

/// The text of an outcome: why a step has failed, if it has.
pub open spec fn outcome_text(outcome: Option<String>) -> Option<Seq<char>> {
    match outcome {
        Some(error) => Some(error@),
        None => None,
    }
}

/// The warnings of steps that have come out as told.
pub open spec fn warnings_of(steps: Seq<StepView>, outcomes: Seq<Option<String>>) -> Seq<Seq<char>>
    decreases steps.len(),
{
    if steps.len() == 0 {
        Seq::empty()
    } else {
        let before = warnings_of(steps.drop_last(), outcomes);
        let step = steps.last();
        match outcome_text(outcomes[steps.len() - 1]) {
            Some(error) => before.push(step_warning(step, error)),
            None => if step is Note {
                before.push(step->Note_0)
            } else {
                before
            },
        }
    }
}

/// The place at which a step mounts something, if it does.
pub open spec fn mounts_at(step: StepView) -> Option<Seq<u8>> {
    match step {
        StepView::MountFs(_, target) => Some(target),
        StepView::Bind(_, target, _) => Some(target),
        _ => None,
    }
}

/// The places at which something has been mounted by steps that have come out
/// as told.
pub open spec fn mounted_by(steps: Seq<StepView>, outcomes: Seq<Option<String>>) -> Seq<Seq<u8>>
    decreases steps.len(),
{
    if steps.len() == 0 {
        Seq::empty()
    } else {
        let before = mounted_by(steps.drop_last(), outcomes);
        if outcomes[steps.len() - 1] is Some {
            before
        } else {
            match mounts_at(steps.last()) {
                Some(target) => before.push(target),
                None => before,
            }
        }
    }
}

impl MountStep {
    /// What a user is told of a step that has failed.
    pub fn warning(&self, error: &str) -> (r: String)
        ensures
            r@ == step_warning(self@, error@),
    {
        match self {
            MountStep::MakePrivate => text2("failed to make mounts private: ", error),
            MountStep::EnsureDir { path } => text4(
                "failed to create directory ",
                path.display().as_str(),
                ": ",
                error,
            ),
            MountStep::EnsureFile { path } => text4(
                "failed to create file target ",
                path.display().as_str(),
                ": ",
                error,
            ),
            MountStep::MountFs { fs, target } => text6(
                "failed to mount ",
                fs.name(),
                " at ",
                target.display().as_str(),
                ": ",
                error,
            ),
            MountStep::Bind { source, target, .. } => text6(
                "failed to bind ",
                source.display().as_str(),
                " -> ",
                target.display().as_str(),
                ": ",
                error,
            ),
            MountStep::Note { message } => message.clone(),
        }
    }

    /// The place at which the step mounts something, if it does.
    pub fn mount_target(&self) -> (r: Option<UnixPath>)
        ensures
            r is Some == mounts_at(self@) is Some,
            r matches Some(target) ==> mounts_at(self@) == Some(target@),
    {
        match self {
            MountStep::MountFs { target, .. } => Some(target.clone()),
            MountStep::Bind { target, .. } => Some(target.clone()),
            _ => None,
        }
    }
}

/// How a step mounts something.
pub open spec fn flags_of(step: StepView) -> MountFlags {
    let none = MountFlags {
        private: false,
        bind: false,
        recursive: false,
        no_suid: false,
        no_exec: false,
        no_devices: false,
    };
    match step {
        StepView::MakePrivate => MountFlags { private: true, recursive: true, ..none },
        StepView::MountFs(fs, _) => MountFlags {
            no_suid: true,
            no_exec: !(fs is Tmpfs),
            no_devices: !(fs is Devpts),
            ..none
        },
        StepView::Bind(_, _, tree) => MountFlags { bind: true, recursive: tree, ..none },
        _ => none,
    }
}

impl MountStep {
    /// How the step mounts something.
    pub fn flags(&self) -> (r: MountFlags)
        ensures
            r == flags_of(self@),
    {
        let none = MountFlags {
            private: false,
            bind: false,
            recursive: false,
            no_suid: false,
            no_exec: false,
            no_devices: false,
        };
        match self {
            MountStep::MakePrivate => MountFlags { private: true, recursive: true, ..none },
            MountStep::MountFs { fs, .. } => MountFlags {
                no_suid: true,
                no_exec: *fs != KernelFs::Tmpfs,
                no_devices: *fs != KernelFs::Devpts,
                ..none
            },
            MountStep::Bind { tree, .. } => MountFlags { bind: true, recursive: *tree, ..none },
            _ => none,
        }
    }
}

/// What paths are, in order.
pub open spec fn paths_view(paths: Seq<UnixPath>) -> Seq<Seq<u8>> {
    paths.map_values(|path: UnixPath| path@)
}

/// The runner of a keeper, and what has been mounted for it.
pub struct KeeperRuntime {
    paths: ResolvedPaths,
    mounts: Vec<UnixPath>,
}

impl KeeperRuntime {
    pub closed spec fn paths(self) -> PathsView {
        self.paths@
    }

    /// The places at which something has been mounted, in order.
    pub closed spec fn mounts(self) -> Seq<Seq<u8>> {
        paths_view(self.mounts@)
    }

    /// A runner for which nothing has been mounted.
    pub fn new(paths: ResolvedPaths) -> (r: Self)
        ensures
            r.paths() == paths@,
            r.mounts() == Seq::<Seq<u8>>::empty(),
    {
        let r = KeeperRuntime { paths, mounts: Vec::new() };
        proof {
            assert(r.mounts() =~= Seq::empty());
        }
        r
    }

    /// The steps of setting up the runner.
    pub fn steps(&self, host: &HostDevices) -> (r: Vec<MountStep>)
        ensures
            steps_view(r@) == all_steps(self.paths(), *host),
    {
        let root = &self.paths.runner_root;
        let mut steps: Vec<MountStep> = Vec::new();
        add_step(&mut steps, MountStep::MakePrivate);
        proof {
            assert(steps_view(steps@) =~= seq![StepView::MakePrivate]);
        }
        add_mount_fs(&mut steps, KernelFs::Proc, root.join_text("proc"));
        add_bind_device(&mut steps, root, "null");
        add_bind_device(&mut steps, root, "zero");
        add_bind_device(&mut steps, root, "full");
        add_bind_device(&mut steps, root, "random");
        add_bind_device(&mut steps, root, "urandom");
        add_mount_fs(&mut steps, KernelFs::Devpts, root.join_text("dev/pts"));
        add_mount_fs(&mut steps, KernelFs::Tmpfs, root.join_text("dev/shm"));
        add_mount_fs(&mut steps, KernelFs::Tmpfs, root.join_text("tmp"));
        let ghost before = steps_view(steps@);
        if host.has_kfd {
            add_bind_file(
                &mut steps,
                UnixPath::from_text("/dev/kfd"),
                root.join_text("dev/kfd"),
            );
        }
        let ghost kfd = if_there(
            host.has_kfd,
            bind_file(raw("/dev/kfd"@), path_joined(root@, raw("dev/kfd"@))),
        );
        proof {
            assert(steps_view(steps@) =~= before + kfd);
        }
        if host.has_dri {
            add_bind_tree(
                &mut steps,
                UnixPath::from_text("/dev/dri"),
                root.join_text("dev/dri"),
            );
        }
        let ghost dri = if_there(
            host.has_dri,
            bind_tree(raw("/dev/dri"@), path_joined(root@, raw("dev/dri"@))),
        );
        proof {
            assert(steps_view(steps@) =~= before + kfd + dri);
        }
        if host.has_accel {
            add_bind_tree(
                &mut steps,
                UnixPath::from_text("/dev/accel"),
                root.join_text("dev/accel"),
            );
        }
        let ghost accel = if_there(
            host.has_accel,
            bind_tree(raw("/dev/accel"@), path_joined(root@, raw("dev/accel"@))),
        );
        proof {
            assert(steps_view(steps@) =~= before + kfd + dri + accel);
        }
        add_bind_entries(&mut steps, root, &host.entries);
        add_bind_tree(&mut steps, self.paths.files_root.clone(), root.join_text("mnt"));
        let ghost rest = steps_view(steps@);
        match &host.home {
            None => {
                add_step(
                    &mut steps,
                    MountStep::Note { message: "HOME environment variable is not set".to_owned() },
                );
            },
            Some(home) => if host.home_is_dir {
                add_bind_tree(&mut steps, home.clone(), root.join_text("root"));
            } else {
                add_step(
                    &mut steps,
                    MountStep::Note {
                        message: text2(
                            "HOME does not point to a directory: ",
                            home.display().as_str(),
                        ),
                    },
                );
            },
        }
        proof {
            assert(steps_view(steps@) =~= rest + bind_home(root@, *host));
        }
        steps
    }

    /// Takes note of what came of the steps: the warnings, and what has been
    /// mounted. For each step there is the reason for its failure, if it failed.
    pub fn initialize(&mut self, host: &HostDevices, outcomes: &Vec<Option<String>>) -> (r:
        RunnerWarnings)
        requires
            outcomes@.len() == all_steps(old(self).paths(), *host).len(),
        ensures
            final(self).paths() == old(self).paths(),
            r@ == warnings_of(all_steps(old(self).paths(), *host), outcomes@),
            final(self).mounts() == old(self).mounts() + mounted_by(
                all_steps(old(self).paths(), *host),
                outcomes@,
            ),
    {
        let steps = self.steps(host);
        let ghost views = steps_view(steps@);
        let ghost before = self.mounts();
        let mut warnings = RunnerWarnings::new();
        let mut i: usize = 0;
        proof {
            assert(views.take(0) =~= Seq::empty());
            assert(before + mounted_by(views.take(0), outcomes@) =~= before);
        }
        while i < steps.len()
            invariant
                i <= steps@.len(),
                views == steps_view(steps@),
                outcomes@.len() == views.len(),
                self.paths() == old(self).paths(),
                warnings@ == warnings_of(views.take(i as int), outcomes@),
                self.mounts() == before + mounted_by(views.take(i as int), outcomes@),
            decreases steps.len() - i,
        {
            let ghost so_far = self.mounts@;
            let step = &steps[i];
            proof {
                assert(views.take(i + 1).drop_last() =~= views.take(i as int));
                assert(views.take(i + 1).last() == step@);
            }
            match &outcomes[i] {
                Some(error) => {
                    warnings.push(step.warning(error.as_str()));
                },
                None => {
                    if let MountStep::Note { message } = step {
                        warnings.push(message.clone());
                    }
                    if let Some(target) = step.mount_target() {
                        let ghost place = target@;
                        self.remember_mount(target);
                        proof {
                            assert(before + mounted_by(views.take(i + 1), outcomes@) =~= (before
                                + mounted_by(views.take(i as int), outcomes@)).push(place));
                        }
                    }
                },
            }
            i += 1;
        }
        proof {
            assert(views.take(i as int) =~= views);
        }
        warnings
    }

    fn remember_mount(&mut self, target: UnixPath)
        ensures
            final(self).mounts() == old(self).mounts().push(target@),
            final(self).paths() == old(self).paths(),
    {
        let ghost before = self.mounts@;
        self.mounts.push(target);
        proof {
            assert(paths_view(self.mounts@) =~= paths_view(before).push(target@));
        }
    }

    /// The place that is to be unmounted next: the one that was mounted last.
    pub fn next_unmount(&mut self) -> (r: Option<UnixPath>)
        ensures
            final(self).paths() == old(self).paths(),
            r is Some == (old(self).mounts().len() > 0),
            r matches Some(target) ==> {
                &&& target@ == old(self).mounts().last()
                &&& final(self).mounts() == old(self).mounts().drop_last()
            },
            r is None ==> final(self).mounts() == old(self).mounts(),
    {
        let ghost before = self.mounts@;
        let r = self.mounts.pop();
        proof {
            if before.len() > 0 {
                assert(paths_view(self.mounts@) =~= paths_view(before).drop_last());
            }
        }
        r
    }
}

/// What came of unmounting.
pub enum UnmountOutcome {
    /// Nothing has been unmounted yet.
    Begun,
    /// A plain unmount, which may have failed.
    Plain { target: UnixPath, failed: bool },
    /// A lazy unmount, whatever came of it.
    Lazy,
}

/// What is to be unmounted.
#[derive(Debug)]
pub enum UnmountAction {
    Plain(UnixPath),
    /// As soon as it is no longer in use.
    Lazy(UnixPath),
    /// Nothing is left.
    Finished,
}

/// What came of unmounting.
pub enum UnmountOutcomeView {
    Begun,
    Plain(Seq<u8>, bool),
    Lazy,
}

/// What is to be unmounted.
pub enum UnmountView {
    Plain(Seq<u8>),
    Lazy(Seq<u8>),
    Finished,
}

impl View for UnmountOutcome {
    type V = UnmountOutcomeView;

    open spec fn view(&self) -> UnmountOutcomeView {
        match self {
            UnmountOutcome::Begun => UnmountOutcomeView::Begun,
            UnmountOutcome::Plain { target, failed } => UnmountOutcomeView::Plain(target@, *failed),
            UnmountOutcome::Lazy => UnmountOutcomeView::Lazy,
        }
    }
}

impl View for UnmountAction {
    type V = UnmountView;

    open spec fn view(&self) -> UnmountView {
        match self {
            UnmountAction::Plain(target) => UnmountView::Plain(target@),
            UnmountAction::Lazy(target) => UnmountView::Lazy(target@),
            UnmountAction::Finished => UnmountView::Finished,
        }
    }
}

/// What is to be unmounted next, and the mounts that are left then: a place
/// whose plain unmount has failed is unmounted lazily, and after that the place
/// that was mounted last has its turn.
pub open spec fn unmount_step(mounts: Seq<Seq<u8>>, outcome: UnmountOutcomeView) -> (
    Seq<Seq<u8>>,
    UnmountView,
) {
    match outcome {
        UnmountOutcomeView::Plain(target, true) => (mounts, UnmountView::Lazy(target)),
        _ => if mounts.len() > 0 {
            (mounts.drop_last(), UnmountView::Plain(mounts.last()))
        } else {
            (mounts, UnmountView::Finished)
        },
    }
}

impl KeeperRuntime {
    /// What is to be unmounted next, given what came of the last.
    pub fn unmount(&mut self, outcome: UnmountOutcome) -> (r: UnmountAction)
        ensures
            final(self).paths() == old(self).paths(),
            final(self).mounts() == unmount_step(old(self).mounts(), outcome@).0,
            r@ == unmount_step(old(self).mounts(), outcome@).1,
    {
        match outcome {
            UnmountOutcome::Plain { target, failed: true } => UnmountAction::Lazy(target),
            _ => match self.next_unmount() {
                Some(target) => UnmountAction::Plain(target),
                None => UnmountAction::Finished,
            },
        }
    }
}

/// What is unmounted, from the given outcome on, until nothing is left; `fails`
/// tells which plain unmounts fail, of which the next is the `turn`-th.
pub open spec fn unmounted(
    mounts: Seq<Seq<u8>>,
    outcome: UnmountOutcomeView,
    fails: spec_fn(int) -> bool,
    turn: int,
) -> Seq<UnmountView>
    decreases
            mounts.len(),
            if outcome matches UnmountOutcomeView::Plain(_, failed) && failed {
                1int
            } else {
                0
            },
{
    let (left, action) = unmount_step(mounts, outcome);
    match action {
        UnmountView::Plain(target) => seq![action] + unmounted(
            left,
            UnmountOutcomeView::Plain(target, fails(turn)),
            fails,
            turn + 1,
        ),
        UnmountView::Lazy(_) => seq![action] + unmounted(
            left,
            UnmountOutcomeView::Lazy,
            fails,
            turn,
        ),
        UnmountView::Finished => Seq::empty(),
    }
}

/// The unmounts of the places in the given order: a plain one for each, followed
/// by a lazy one where that fails.
pub open spec fn each_once(
    places: Seq<Seq<u8>>,
    fails: spec_fn(int) -> bool,
    turn: int,
) -> Seq<UnmountView>
    decreases places.len(),
{
    if places.len() == 0 {
        Seq::empty()
    } else {
        let first = places[0];
        let lazy = if fails(turn) {
            seq![UnmountView::Lazy(first)]
        } else {
            Seq::empty()
        };
        seq![UnmountView::Plain(first)] + lazy + each_once(places.drop_first(), fails, turn + 1)
    }
}

/// Everything that has been mounted is unmounted once, the last first, and with
/// a lazy unmount where the plain one fails; a failure does not keep the rest
/// from being unmounted, and nothing else is.
pub proof fn everything_is_unmounted_in_reverse(
    mounts: Seq<Seq<u8>>,
    fails: spec_fn(int) -> bool,
)
    ensures
        unmounted(mounts, UnmountOutcomeView::Begun, fails, 0) == each_once(
            mounts.reverse(),
            fails,
            0,
        ),
{
    unmounting_goes_on(mounts, UnmountOutcomeView::Begun, fails, 0);
}

proof fn unmounting_goes_on(
    mounts: Seq<Seq<u8>>,
    outcome: UnmountOutcomeView,
    fails: spec_fn(int) -> bool,
    turn: int,
)
    requires
        !(outcome matches UnmountOutcomeView::Plain(_, failed) && failed),
    ensures
        unmounted(mounts, outcome, fails, turn) == each_once(mounts.reverse(), fails, turn),
    decreases mounts.len(),
{
    if mounts.len() > 0 {
        let target = mounts.last();
        let left = mounts.drop_last();
        let after = UnmountOutcomeView::Plain(target, fails(turn));
        assert(mounts.reverse()[0] == target);
        assert(mounts.reverse().drop_first() =~= left.reverse());
        if fails(turn) {
            unmounting_goes_on(left, UnmountOutcomeView::Lazy, fails, turn + 1);
            assert(unmounted(left, after, fails, turn + 1) == seq![UnmountView::Lazy(target)]
                + unmounted(left, UnmountOutcomeView::Lazy, fails, turn + 1));
        } else {
            unmounting_goes_on(left, after, fails, turn + 1);
        }
        assert(unmounted(mounts, outcome, fails, turn) =~= each_once(
            mounts.reverse(),
            fails,
            turn,
        ));
    } else {
        assert(mounts.reverse() =~= Seq::empty());
    }
}

/// The notes among steps, in order.
pub open spec fn notes(steps: Seq<StepView>) -> Seq<Seq<char>> {
    steps.filter(|step: StepView| step is Note).map_values(|step: StepView| step->Note_0)
}

/// The places at which steps mount something, in order.
pub open spec fn places(steps: Seq<StepView>) -> Seq<Seq<u8>> {
    steps.filter(|step: StepView| mounts_at(step) is Some).map_values(
        |step: StepView| mounts_at(step)->Some_0,
    )
}

/// Where every step succeeds the warnings are the notes on what is missing, and
/// everything that is to be mounted is, in order.
pub proof fn success_mounts_everything(steps: Seq<StepView>, outcomes: Seq<Option<String>>)
    requires
        outcomes.len() >= steps.len(),
        forall|i: int| 0 <= i < outcomes.len() ==> (#[trigger] outcomes[i]) is None,
    ensures
        warnings_of(steps, outcomes) == notes(steps),
        mounted_by(steps, outcomes) == places(steps),
    decreases steps.len(),
{
    reveal(Seq::filter);
    if steps.len() > 0 {
        success_mounts_everything(steps.drop_last(), outcomes);
        assert(outcomes[steps.len() - 1] is None);
    }
    assert(warnings_of(steps, outcomes) =~= notes(steps));
    assert(mounted_by(steps, outcomes) =~= places(steps));
}

/// Whether everything that the steps mount is below `root`.
#[verifier::opaque]
pub open spec fn stay_below(root: Seq<u8>, steps: Seq<StepView>) -> bool {
    forall|i: int|
        0 <= i < steps.len() && mounts_at(#[trigger] steps[i]) is Some ==> below(
            root,
            mounts_at(steps[i])->Some_0,
        )
}

proof fn both_stay_below(root: Seq<u8>, first: Seq<StepView>, second: Seq<StepView>)
    requires
        stay_below(root, first),
        stay_below(root, second),
    ensures
        stay_below(root, first + second),
{
    reveal(stay_below);
    let both = first + second;
    assert forall|i: int| 0 <= i < both.len() && mounts_at(#[trigger] both[i]) is Some implies
        below(root, mounts_at(both[i])->Some_0) by {
        if i < first.len() {
            assert(both[i] == first[i]);
        } else {
            assert(both[i] == second[i - first.len()]);
        }
    }
}

/// A relative name in ASCII is below the path that it is joined to, and below
/// every path that this is below.
proof fn name_stays_below(root: Seq<u8>, path: Seq<u8>, name: Seq<char>)
    requires
        path == root || below(root, path),
        is_ascii_chars(name),
        name.len() > 0,
        name[0] != '/',
    ensures
        below(root, path_joined(path, raw(name))),
{
    is_ascii_chars_encode_utf8(name);
    is_ascii_chars_nat_bound(name);
    assert(raw(name)[0] == name[0] as u8);
    assert((name[0] as u8) as int == name[0] as int);
    if path != root {
        joining_stays_below(root, path, raw(name));
    }
}

/// The steps that mount a file system of the kernel at a place below `root` stay
/// below it.
proof fn mount_stays_below(root: Seq<u8>, fs: KernelFs, target: Seq<u8>)
    requires
        below(root, target),
    ensures
        stay_below(root, mount_fs(fs, target)),
{
    reveal(stay_below);
}

/// The steps that show a file or directory at a place below `root` stay below
/// it.
proof fn bind_stays_below(root: Seq<u8>, source: Seq<u8>, target: Seq<u8>, there: bool)
    requires
        below(root, target),
    ensures
        stay_below(root, bind_file(source, target)),
        stay_below(root, bind_tree(source, target)),
        stay_below(root, if_there(there, bind_file(source, target))),
        stay_below(root, if_there(there, bind_tree(source, target))),
{
    reveal(stay_below);
}

proof fn entries_stay_below(root: Seq<u8>, entries: Seq<DeviceEntry>)
    requires
        forall|j: int|
            0 <= j < entries.len() && (#[trigger] entries[j]).name@.len() > 0
                ==> entries[j].name@[0] != SEPARATOR,
        below(root, path_joined(root, raw("dev"@))),
    ensures
        stay_below(root, bind_entries(root, entries)),
    decreases entries.len(),
{
    if entries.len() > 0 {
        let init = entries.drop_last();
        let entry = entries.last();
        assert forall|j: int|
            0 <= j < init.len() && (#[trigger] init[j]).name@.len() > 0 implies init[j].name@[0]
            != SEPARATOR by {
            assert(init[j] == entries[j]);
        }
        entries_stay_below(root, init);
        assert(entries[entries.len() - 1] == entry);
        let inner = path_joined(root, raw("dev"@));
        joining_stays_below(root, inner, entry.name@);
        let added = if_there(
            wanted(entry),
            bind_file(path_joined(raw("/dev"@), entry.name@), path_joined(inner, entry.name@)),
        );
        bind_stays_below(
            root,
            path_joined(raw("/dev"@), entry.name@),
            path_joined(inner, entry.name@),
            wanted(entry),
        );
        both_stay_below(root, bind_entries(root, init), added);
    } else {
        reveal(stay_below);
    }
}

proof fn device_stays_below(root: Seq<u8>, device: Seq<char>)
    requires
        below(root, path_joined(root, raw("dev"@))),
        is_ascii_chars(device),
        device.len() > 0,
        device[0] != '/',
    ensures
        stay_below(root, bind_device(root, device)),
{
    let inner = path_joined(root, raw("dev"@));
    name_stays_below(root, inner, device);
    bind_stays_below(
        root,
        raw("/dev/"@ + device),
        path_joined(inner, raw(device)),
        true,
    );
}

/// Everything that is mounted for the runner is below its root.
pub proof fn mounts_stay_in_the_runner(paths: PathsView, host: HostDevices)
    requires
        forall|j: int|
            0 <= j < host.entries@.len() && (#[trigger] host.entries@[j]).name@.len() > 0
                ==> host.entries@[j].name@[0] != SEPARATOR,
    ensures
        stay_below(paths.runner_root, all_steps(paths, host)),
{
    let root = paths.runner_root;
    assert(stay_below(root, mount_fs(KernelFs::Proc, path_joined(root, raw("proc"@))))) by {
        reveal_strlit("proc");
        name_stays_below(root, root, "proc"@);
        mount_stays_below(root, KernelFs::Proc, path_joined(root, raw("proc"@)));
    }
    assert(stay_below(root, mount_fs(KernelFs::Devpts, path_joined(root, raw("dev/pts"@))))) by {
        reveal_strlit("dev/pts");
        name_stays_below(root, root, "dev/pts"@);
        mount_stays_below(root, KernelFs::Devpts, path_joined(root, raw("dev/pts"@)));
    }
    assert(stay_below(root, mount_fs(KernelFs::Tmpfs, path_joined(root, raw("dev/shm"@))))) by {
        reveal_strlit("dev/shm");
        name_stays_below(root, root, "dev/shm"@);
        mount_stays_below(root, KernelFs::Tmpfs, path_joined(root, raw("dev/shm"@)));
    }
    assert(stay_below(root, mount_fs(KernelFs::Tmpfs, path_joined(root, raw("tmp"@))))) by {
        reveal_strlit("tmp");
        name_stays_below(root, root, "tmp"@);
        mount_stays_below(root, KernelFs::Tmpfs, path_joined(root, raw("tmp"@)));
    }
    assert(stay_below(root, if_there(host.has_kfd, bind_file(raw("/dev/kfd"@), path_joined(root, raw("dev/kfd"@)))))) by {
        reveal_strlit("dev/kfd");
        name_stays_below(root, root, "dev/kfd"@);
        bind_stays_below(root, raw("/dev/kfd"@), path_joined(root, raw("dev/kfd"@)), host.has_kfd);
    }
    assert(stay_below(root, if_there(host.has_dri, bind_tree(raw("/dev/dri"@), path_joined(root, raw("dev/dri"@)))))) by {
        reveal_strlit("dev/dri");
        name_stays_below(root, root, "dev/dri"@);
        bind_stays_below(root, raw("/dev/dri"@), path_joined(root, raw("dev/dri"@)), host.has_dri);
    }
    assert(stay_below(root, if_there(host.has_accel, bind_tree(raw("/dev/accel"@), path_joined(root, raw("dev/accel"@)))))) by {
        reveal_strlit("dev/accel");
        name_stays_below(root, root, "dev/accel"@);
        bind_stays_below(root, raw("/dev/accel"@), path_joined(root, raw("dev/accel"@)), host.has_accel);
    }
    assert(stay_below(root, bind_tree(paths.files_root, path_joined(root, raw("mnt"@))))) by {
        reveal_strlit("mnt");
        name_stays_below(root, root, "mnt"@);
        bind_stays_below(root, paths.files_root, path_joined(root, raw("mnt"@)), true);
    }
    assert(stay_below(root, bind_home(root, host))) by {
        reveal_strlit("root");
        name_stays_below(root, root, "root"@);
        if host.home is Some && host.home_is_dir {
            bind_stays_below(
                root,
                host.home->Some_0@,
                path_joined(root, raw("root"@)),
                true,
            );
        } else {
            reveal(stay_below);
        }
    }
    let inner = path_joined(root, raw("dev"@));
    assert(below(root, inner)) by {
        reveal_strlit("dev");
        name_stays_below(root, root, "dev"@);
    }
    assert(stay_below(root, bind_device(root, "null"@))) by {
        reveal_strlit("null");
        device_stays_below(root, "null"@);
    }
    assert(stay_below(root, bind_device(root, "zero"@))) by {
        reveal_strlit("zero");
        device_stays_below(root, "zero"@);
    }
    assert(stay_below(root, bind_device(root, "full"@))) by {
        reveal_strlit("full");
        device_stays_below(root, "full"@);
    }
    assert(stay_below(root, bind_device(root, "random"@))) by {
        reveal_strlit("random");
        device_stays_below(root, "random"@);
    }
    assert(stay_below(root, bind_device(root, "urandom"@))) by {
        reveal_strlit("urandom");
        device_stays_below(root, "urandom"@);
    }
    assert(stay_below(root, seq![StepView::MakePrivate])) by {
        reveal(stay_below);
    }
    entries_stay_below(root, host.entries@);
    let steps = seq![StepView::MakePrivate];
    both_stay_below(root, steps, mount_fs(KernelFs::Proc, path_joined(root, raw("proc"@))));
    let steps = steps + mount_fs(KernelFs::Proc, path_joined(root, raw("proc"@)));
    both_stay_below(root, steps, bind_device(root, "null"@));
    let steps = steps + bind_device(root, "null"@);
    both_stay_below(root, steps, bind_device(root, "zero"@));
    let steps = steps + bind_device(root, "zero"@);
    both_stay_below(root, steps, bind_device(root, "full"@));
    let steps = steps + bind_device(root, "full"@);
    both_stay_below(root, steps, bind_device(root, "random"@));
    let steps = steps + bind_device(root, "random"@);
    both_stay_below(root, steps, bind_device(root, "urandom"@));
    let steps = steps + bind_device(root, "urandom"@);
    both_stay_below(root, steps, mount_fs(KernelFs::Devpts, path_joined(root, raw("dev/pts"@))));
    let steps = steps + mount_fs(KernelFs::Devpts, path_joined(root, raw("dev/pts"@)));
    both_stay_below(root, steps, mount_fs(KernelFs::Tmpfs, path_joined(root, raw("dev/shm"@))));
    let steps = steps + mount_fs(KernelFs::Tmpfs, path_joined(root, raw("dev/shm"@)));
    both_stay_below(root, steps, mount_fs(KernelFs::Tmpfs, path_joined(root, raw("tmp"@))));
    let steps = steps + mount_fs(KernelFs::Tmpfs, path_joined(root, raw("tmp"@)));
    both_stay_below(root, steps, if_there(host.has_kfd, bind_file(raw("/dev/kfd"@), path_joined(root, raw("dev/kfd"@)))));
    let steps = steps + if_there(host.has_kfd, bind_file(raw("/dev/kfd"@), path_joined(root, raw("dev/kfd"@))));
    both_stay_below(root, steps, if_there(host.has_dri, bind_tree(raw("/dev/dri"@), path_joined(root, raw("dev/dri"@)))));
    let steps = steps + if_there(host.has_dri, bind_tree(raw("/dev/dri"@), path_joined(root, raw("dev/dri"@))));
    both_stay_below(root, steps, if_there(host.has_accel, bind_tree(raw("/dev/accel"@), path_joined(root, raw("dev/accel"@)))));
    let steps = steps + if_there(host.has_accel, bind_tree(raw("/dev/accel"@), path_joined(root, raw("dev/accel"@))));
    both_stay_below(root, steps, bind_entries(root, host.entries@));
    let steps = steps + bind_entries(root, host.entries@);
    both_stay_below(root, steps, bind_tree(paths.files_root, path_joined(root, raw("mnt"@))));
    let steps = steps + bind_tree(paths.files_root, path_joined(root, raw("mnt"@)));
    both_stay_below(root, steps, bind_home(root, host));
    let steps = steps + bind_home(root, host);
    assert(all_steps(paths, host) == steps);
}

/// The files of the models are shown in the runner under `mnt`.
pub proof fn model_files_are_shown(paths: PathsView, host: HostDevices)
    ensures
        all_steps(paths, host).contains(
            StepView::Bind(
                paths.files_root,
                path_joined(paths.runner_root, raw("mnt"@)),
                true,
            ),
        ),
{
    let root = paths.runner_root;
    let files = bind_tree(paths.files_root, path_joined(root, raw("mnt"@)));
    let home = bind_home(root, host);
    let steps = all_steps(paths, host);
    let at = steps.len() - home.len() - 1;
    assert(files[1] == steps[at]);
}

} // verus!
