//! The directories that the application works on, and what has to be there.
use vstd::prelude::*;
use vstd::utf8::{encode_utf8, is_ascii_chars_encode_utf8};

use crate::encoding::encoding_of_both;
use crate::text::{both_hold, flagged, join, joined, push_all, push_text, starts_with, text2, texts};
use crate::unix_path::{lossy_text, path_joined, text_of_bytes, UnixPath};

verus! {

/// Why the application could not even be checked.
#[derive(Debug)]
pub enum StartupError {
    /// The environment does not say where the models are.
    ModelsRootUnset,
    /// The configuration file could not be read.
    ConfigUnreadable { path: UnixPath },
    /// The configuration file is not in the expected form.
    ConfigInvalid,
}

impl StartupError {
    /// What a user is told.
    pub open spec fn text(self) -> Seq<char> {
        match self {
            StartupError::ModelsRootUnset => "MODELS_ROOT environment variable is not set"@,
            StartupError::ConfigUnreadable { path } => "failed to read config file at "@
                + lossy_text(path@),
            StartupError::ConfigInvalid => "failed to parse config file"@,
        }
    }

    /// What a user is told.
    pub fn message(&self) -> (r: String)
        ensures
            r@ == self.text(),
    {
        match self {
            StartupError::ModelsRootUnset => "MODELS_ROOT environment variable is not set".to_owned(),
            StartupError::ConfigUnreadable { path } => text2(
                "failed to read config file at ",
                path.display().as_str(),
            ),
            StartupError::ConfigInvalid => "failed to parse config file".to_owned(),
        }
    }
}

/// What is wrong at startup, in order.
#[derive(Debug)]
pub struct StartupValidation {
    pub errors: Vec<String>,
}

impl View for StartupValidation {
    type V = Seq<Seq<char>>;

    open spec fn view(&self) -> Seq<Seq<char>> {
        texts(self.errors@)
    }
}

impl Default for StartupValidation {
    fn default() -> (r: Self)
        ensures
            r@ == Seq::<Seq<char>>::empty(),
    {
        StartupValidation::new()
    }
}

impl StartupValidation {
    /// Nothing wrong so far.
    pub fn new() -> (r: Self)
        ensures
            r@ == Seq::<Seq<char>>::empty(),
    {
        let r = StartupValidation { errors: Vec::new() };
        proof {
            assert(r@ =~= Seq::empty());
        }
        r
    }

    /// One error.
    pub fn from_single(error: StartupError) -> (r: Self)
        ensures
            r@ == seq![error.text()],
    {
        Self::from_message(error.message())
    }

    /// One error with the given message.
    pub fn from_message(message: String) -> (r: Self)
        ensures
            r@ == seq![message@],
    {
        let mut r = Self::new();
        r.push(message);
        proof {
            assert(r@ =~= seq![message@]);
        }
        r
    }

    /// Adds an error.
    pub fn push(&mut self, error: String)
        ensures
            final(self)@ == old(self)@.push(error@),
    {
        push_text(&mut self.errors, error);
    }

    /// Adds the errors of `other`.
    pub fn extend(&mut self, other: StartupValidation)
        ensures
            final(self)@ == old(self)@ + other@,
    {
        push_all(&mut self.errors, &other.errors);
    }

    /// Whether there is an error.
    pub fn has_errors(&self) -> (r: bool)
        ensures
            r == (self@.len() > 0),
    {
        self.errors.len() > 0
    }

    /// All errors, one per line.
    pub fn body(&self) -> (r: String)
        ensures
            r@ == joined(self@, "\n"@),
    {
        join(&self.errors, "\n")
    }
}

/// What the file system says of the runner's root directory.
pub struct RootfsProbe {
    /// Whether `dev` is a directory.
    pub dev: bool,
    /// Whether `proc` is a directory.
    pub proc: bool,
    /// Whether `tmp` is a directory.
    pub tmp: bool,
    /// Whether `usr/lib` is a directory.
    pub usr_lib: bool,
    /// Whether `usr/lib64` is a directory.
    pub usr_lib64: bool,
    /// The names of the entries of each directory that may hold a dynamic loader
    /// and that could be read.
    pub library_entries: Vec<Vec<UnixPath>>,
}

/// The directories of the runner that have to be looked at.
#[derive(Debug)]
pub struct RootfsPaths {
    pub dev: UnixPath,
    pub proc: UnixPath,
    pub tmp: UnixPath,
    pub usr_lib: UnixPath,
    pub usr_lib64: UnixPath,
    /// The directories that may hold a dynamic loader.
    pub library_dirs: Vec<UnixPath>,
}

/// What the file system says of the paths.
pub struct PathProbe {
    pub models_root_is_dir: bool,
    pub runner_root_is_dir: bool,
    pub rootfs: RootfsProbe,
    pub files_root_is_dir: bool,
    pub config_is_file: bool,
}

/// Whether a file name is that of a dynamic loader.
pub open spec fn names_loader(name: Seq<char>) -> bool {
    "ld-linux-"@.is_prefix_of(name) || "ld-musl-"@.is_prefix_of(name)
}

/// Whether a file name is that of a dynamic loader.
pub fn is_loader_name(name: &str) -> (r: bool)
    ensures
        r == names_loader(name@),
{
    starts_with(name, "ld-linux-") || starts_with(name, "ld-musl-")
}

impl RootfsProbe {
    /// Whether a directory of libraries holds a dynamic loader.
    pub open spec fn has_loader(self) -> bool {
        exists|i: int, j: int|
            0 <= i < self.library_entries@.len() && 0 <= j < self.library_entries@[i]@.len()
                && names_loader(lossy_text(#[trigger] self.library_entries@[i]@[j]@))
    }

    /// Whether the directory can be the root of a system.
    pub open spec fn complete(self) -> bool {
        self.dev && self.proc && self.tmp && (self.usr_lib || self.usr_lib64) && self.has_loader()
    }

    /// Whether a directory of libraries holds a dynamic loader.
    pub fn has_dynamic_loader(&self) -> (r: bool)
        ensures
            r == self.has_loader(),
    {
        let mut i: usize = 0;
        while i < self.library_entries.len()
            invariant
                i <= self.library_entries@.len(),
                forall|a: int, b: int|
                    0 <= a < i && 0 <= b < self.library_entries@[a]@.len() ==> !names_loader(
                        lossy_text(#[trigger] self.library_entries@[a]@[b]@),
                    ),
            decreases self.library_entries.len() - i,
        {
            let entries = &self.library_entries[i];
            let mut j: usize = 0;
            while j < entries.len()
                invariant
                    i < self.library_entries@.len(),
                    entries == &self.library_entries@[i as int],
                    j <= entries@.len(),
                    forall|b: int|
                        0 <= b < j ==> !names_loader(
                            lossy_text(#[trigger] self.library_entries@[i as int]@[b]@),
                        ),
                decreases entries.len() - j,
            {
                let name = text_of_bytes(&entries[j].bytes);
                if is_loader_name(name.as_str()) {
                    proof {
                        assert(names_loader(
                            lossy_text(self.library_entries@[i as int]@[j as int]@),
                        ));
                    }
                    return true;
                }
                j += 1;
            }
            i += 1;
        }
        false
    }

    /// Whether the directory can be the root of a system.
    pub fn looks_like_chroot(&self) -> (r: bool)
        ensures
            r == self.complete(),
    {
        self.dev && self.proc && self.tmp && (self.usr_lib || self.usr_lib64)
            && self.has_dynamic_loader()
    }
}

/// The directories that the application works on.
#[derive(Debug)]
pub struct ResolvedPaths {
    pub models_root: UnixPath,
    pub runner_root: UnixPath,
    pub files_root: UnixPath,
    pub config_path: UnixPath,
}

/// What a set of directories is.
#[verifier::ext_equal]
pub struct PathsView {
    pub models_root: Seq<u8>,
    pub runner_root: Seq<u8>,
    pub files_root: Seq<u8>,
    pub config_path: Seq<u8>,
}

impl View for ResolvedPaths {
    type V = PathsView;

    open spec fn view(&self) -> PathsView {
        PathsView {
            models_root: self.models_root@,
            runner_root: self.runner_root@,
            files_root: self.files_root@,
            config_path: self.config_path@,
        }
    }
}

impl Clone for ResolvedPaths {
    fn clone(&self) -> (r: Self)
        ensures
            r@ == self@,
    {
        ResolvedPaths {
            models_root: self.models_root.clone(),
            runner_root: self.runner_root.clone(),
            files_root: self.files_root.clone(),
            config_path: self.config_path.clone(),
        }
    }
}

/// The directories under the given root.
pub open spec fn paths_under(root: Seq<u8>) -> PathsView {
    let files_root = path_joined(root, encode_utf8("Files"@));
    PathsView {
        models_root: root,
        runner_root: path_joined(root, encode_utf8("Runner"@)),
        files_root,
        config_path: path_joined(files_root, encode_utf8("assistant.toml"@)),
    }
}

/// What is wrong with the directories.
pub open spec fn path_errors(paths: PathsView, probe: PathProbe) -> Seq<Seq<char>> {
    flagged(
        !probe.models_root_is_dir,
        "MODELS_ROOT does not exist or is not a directory: "@ + lossy_text(paths.models_root),
    ) + flagged(
        !probe.runner_root_is_dir,
        "Runner directory does not exist: "@ + lossy_text(paths.runner_root),
    ) + flagged(
        probe.runner_root_is_dir && !probe.rootfs.complete(),
        "Runner does not look like a chroot rootfs: "@ + lossy_text(paths.runner_root),
    ) + flagged(
        !probe.files_root_is_dir,
        "Files directory does not exist: "@ + lossy_text(paths.files_root),
    ) + flagged(
        !probe.config_is_file,
        "config file does not exist: "@ + lossy_text(paths.config_path),
    )
}

impl ResolvedPaths {
    /// The directories under the root that the environment names.
    pub fn discover(models_root: Option<UnixPath>) -> (r: Result<Self, StartupError>)
        ensures
            r is Ok == models_root is Some,
            r matches Ok(paths) ==> paths@ == paths_under(models_root->Some_0@),
            r matches Err(error) ==> error is ModelsRootUnset,
    {
        let models_root = match models_root {
            Some(models_root) => models_root,
            None => return Err(StartupError::ModelsRootUnset),
        };
        let runner_root = models_root.join_text("Runner");
        let files_root = models_root.join_text("Files");
        let config_path = files_root.join_text("assistant.toml");
        Ok(ResolvedPaths { models_root, runner_root, files_root, config_path })
    }

    /// The directories of the runner that have to be looked at.
    pub fn rootfs_paths(&self) -> (r: RootfsPaths)
        ensures
            ({
                let root = self@.runner_root;
                &&& r.dev@ == path_joined(root, encode_utf8("dev"@))
                &&& r.proc@ == path_joined(root, encode_utf8("proc"@))
                &&& r.tmp@ == path_joined(root, encode_utf8("tmp"@))
                &&& r.usr_lib@ == path_joined(root, encode_utf8("usr/lib"@))
                &&& r.usr_lib64@ == path_joined(root, encode_utf8("usr/lib64"@))
                &&& r.library_dirs@.len() == 4
                &&& r.library_dirs@[0]@ == path_joined(root, encode_utf8("lib"@))
                &&& r.library_dirs@[1]@ == path_joined(root, encode_utf8("lib64"@))
                &&& r.library_dirs@[2]@ == r.usr_lib@
                &&& r.library_dirs@[3]@ == r.usr_lib64@
            }),
    {
        let root = &self.runner_root;
        let mut library_dirs: Vec<UnixPath> = Vec::new();
        library_dirs.push(root.join_text("lib"));
        library_dirs.push(root.join_text("lib64"));
        library_dirs.push(root.join_text("usr/lib"));
        library_dirs.push(root.join_text("usr/lib64"));
        RootfsPaths {
            dev: root.join_text("dev"),
            proc: root.join_text("proc"),
            tmp: root.join_text("tmp"),
            usr_lib: root.join_text("usr/lib"),
            usr_lib64: root.join_text("usr/lib64"),
            library_dirs,
        }
    }

    /// What is wrong with the directories, given what the file system says.
    pub fn validate(&self, probe: &PathProbe) -> (r: StartupValidation)
        ensures
            r@ == path_errors(self@, *probe),
    {
        let mut validation = StartupValidation::new();
        if !probe.models_root_is_dir {
            validation.push(
                text2(
                    "MODELS_ROOT does not exist or is not a directory: ",
                    self.models_root.display().as_str(),
                ),
            );
        }
        if !probe.runner_root_is_dir {
            validation.push(
                text2(
                    "Runner directory does not exist: ",
                    self.runner_root.display().as_str(),
                ),
            );
        } else if !probe.rootfs.looks_like_chroot() {
            validation.push(
                text2(
                    "Runner does not look like a chroot rootfs: ",
                    self.runner_root.display().as_str(),
                ),
            );
        }
        if !probe.files_root_is_dir {
            validation.push(
                text2("Files directory does not exist: ", self.files_root.display().as_str()),
            );
        }
        if !probe.config_is_file {
            validation.push(
                text2("config file does not exist: ", self.config_path.display().as_str()),
            );
        }
        proof {
            assert(validation@ =~= path_errors(self@, *probe));
        }
        validation
    }
}

/// Whether the file system has what the application needs.
pub open spec fn usable(probe: PathProbe) -> bool {
    probe.models_root_is_dir && probe.runner_root_is_dir && probe.rootfs.complete()
        && probe.files_root_is_dir && probe.config_is_file
}

/// The directories are in order if and only if no error is reported.
pub proof fn no_path_errors_when_usable(paths: PathsView, probe: PathProbe)
    ensures
        path_errors(paths, probe).len() == 0 <==> usable(probe),
{
}

/// The directories of the application have their names under the root: `Runner`,
/// `Files`, and in that the file `assistant.toml`.
pub proof fn directories_have_their_names(root: Seq<u8>)
    requires
        root.len() > 0,
        root.last() != '/' as u8,
    ensures
        ({
            let paths = paths_under(root);
            &&& paths.models_root == root
            &&& paths.runner_root == root + encode_utf8("/Runner"@)
            &&& paths.files_root == root + encode_utf8("/Files"@)
            &&& paths.config_path == root + encode_utf8("/Files/assistant.toml"@)
        }),
{
    reveal_strlit("Runner");
    reveal_strlit("Files");
    reveal_strlit("assistant.toml");
    reveal_strlit("/Runner");
    reveal_strlit("/Files");
    reveal_strlit("/Files/assistant.toml");
    is_ascii_chars_encode_utf8("Runner"@);
    is_ascii_chars_encode_utf8("Files"@);
    is_ascii_chars_encode_utf8("assistant.toml"@);
    is_ascii_chars_encode_utf8("/Runner"@);
    is_ascii_chars_encode_utf8("/Files"@);
    is_ascii_chars_encode_utf8("/Files/assistant.toml"@);
    assert("Runner"@[0] == 'R' && "Files"@[0] == 'F' && "assistant.toml"@[0] == 'a');
    let paths = paths_under(root);
    assert(encode_utf8("/Runner"@) =~= seq!['/' as u8] + encode_utf8("Runner"@)) by {
        assert("/Runner"@ =~= seq!['/'] + "Runner"@);
        shifted_text("/Runner"@, "Runner"@);
    }
    assert(encode_utf8("/Files"@) =~= seq!['/' as u8] + encode_utf8("Files"@)) by {
        assert("/Files"@ =~= seq!['/'] + "Files"@);
        shifted_text("/Files"@, "Files"@);
    }
    assert("/Files/assistant.toml"@ =~= "/Files"@ + seq!['/'] + "assistant.toml"@);
    encoding_of_both("/Files"@ + seq!['/'], "assistant.toml"@);
    encoding_of_both("/Files"@, seq!['/']);
    is_ascii_chars_encode_utf8(seq!['/']);
    assert(encode_utf8(seq!['/']) =~= seq!['/' as u8]) by {
        assert(encode_utf8(seq!['/'])[0] == seq!['/'][0] as u8);
    }
    assert(encode_utf8("Runner"@)[0] == 'R' as u8);
    assert(encode_utf8("Files"@)[0] == 'F' as u8);
    assert(encode_utf8("assistant.toml"@)[0] == 'a' as u8);
    assert(paths.runner_root =~= root + encode_utf8("/Runner"@));
    assert(paths.files_root =~= root + encode_utf8("/Files"@));
    assert(paths.files_root.last() == encode_utf8("Files"@).last());
    assert(encode_utf8("Files"@).last() == 's' as u8) by {
        assert(encode_utf8("Files"@)[4] == "Files"@[4] as u8);
        assert("Files"@[4] == 's');
    }
    assert(paths.config_path =~= root + encode_utf8("/Files/assistant.toml"@));
}

proof fn shifted_text(long: Seq<char>, short: Seq<char>)
    requires
        long == seq!['/'] + short,
    ensures
        encode_utf8(long) == seq!['/' as u8] + encode_utf8(short),
{
    encoding_of_both(seq!['/'], short);
    is_ascii_chars_encode_utf8(seq!['/']);
    assert(encode_utf8(seq!['/'])[0] == seq!['/'][0] as u8);
    assert(encode_utf8(seq!['/']) =~= seq!['/' as u8]);
}

/// The directories are accepted if and only if all of them are there, the
/// configuration is a file, and the runner has what a system has: its
/// directories, libraries and a dynamic loader.
pub proof fn accepted_directories(paths: PathsView, probe: PathProbe)
    ensures
        path_errors(paths, probe).len() == 0 <==> {
            let rootfs = probe.rootfs;
            &&& probe.models_root_is_dir
            &&& probe.runner_root_is_dir
            &&& probe.files_root_is_dir
            &&& probe.config_is_file
            &&& rootfs.dev
            &&& rootfs.proc
            &&& rootfs.tmp
            &&& rootfs.usr_lib || rootfs.usr_lib64
            &&& exists|i: int, j: int|
                {
                    &&& 0 <= i < rootfs.library_entries@.len()
                    &&& 0 <= j < rootfs.library_entries@[i]@.len()
                    &&& {
                        ||| "ld-linux-"@.is_prefix_of(
                            lossy_text(#[trigger] rootfs.library_entries@[i]@[j]@),
                        )
                        ||| "ld-musl-"@.is_prefix_of(lossy_text(rootfs.library_entries@[i]@[j]@))
                    }
                }
        },
{
    let rootfs = probe.rootfs;
    no_path_errors_when_usable(paths, probe);
    if rootfs.has_loader() {
        let (i, j) = choose|i: int, j: int|
            0 <= i < rootfs.library_entries@.len() && 0 <= j < rootfs.library_entries@[i]@.len()
                && names_loader(lossy_text(#[trigger] rootfs.library_entries@[i]@[j]@));
        assert(names_loader(lossy_text(rootfs.library_entries@[i]@[j]@)));
    }
}

/// Each directory or file that is missing is told of, with its path, and nothing
/// else is; of a runner that is there, that it is no system.
pub proof fn missing_directories_are_told(
    paths: PathsView,
    probe: PathProbe,
    text: Seq<char>,
)
    ensures
        path_errors(paths, probe).contains(text) <==> {
            ||| !probe.models_root_is_dir && text
                == "MODELS_ROOT does not exist or is not a directory: "@ + lossy_text(
                paths.models_root,
            )
            ||| !probe.runner_root_is_dir && text == "Runner directory does not exist: "@
                + lossy_text(paths.runner_root)
            ||| probe.runner_root_is_dir && !probe.rootfs.complete() && text
                == "Runner does not look like a chroot rootfs: "@ + lossy_text(paths.runner_root)
            ||| !probe.files_root_is_dir && text == "Files directory does not exist: "@
                + lossy_text(paths.files_root)
            ||| !probe.config_is_file && text == "config file does not exist: "@ + lossy_text(
                paths.config_path,
            )
        },
{
    let a = flagged(
        !probe.models_root_is_dir,
        "MODELS_ROOT does not exist or is not a directory: "@ + lossy_text(paths.models_root),
    );
    let b = flagged(
        !probe.runner_root_is_dir,
        "Runner directory does not exist: "@ + lossy_text(paths.runner_root),
    );
    let c = flagged(
        probe.runner_root_is_dir && !probe.rootfs.complete(),
        "Runner does not look like a chroot rootfs: "@ + lossy_text(paths.runner_root),
    );
    let d = flagged(
        !probe.files_root_is_dir,
        "Files directory does not exist: "@ + lossy_text(paths.files_root),
    );
    let e = flagged(
        !probe.config_is_file,
        "config file does not exist: "@ + lossy_text(paths.config_path),
    );
    both_hold(a, b, text);
    both_hold(a + b, c, text);
    both_hold(a + b + c, d, text);
    both_hold(a + b + c + d, e, text);
    if !probe.models_root_is_dir {
        assert(a.contains(a[0]));
    }
    if !probe.runner_root_is_dir {
        assert(b.contains(b[0]));
    }
    if probe.runner_root_is_dir && !probe.rootfs.complete() {
        assert(c.contains(c[0]));
    }
    if !probe.files_root_is_dir {
        assert(d.contains(d[0]));
    }
    if !probe.config_is_file {
        assert(e.contains(e[0]));
    }
}

} // verus!
