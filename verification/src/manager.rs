//! The keeper of the runner, as the application sees it: how it is found,
//! started, reached and stopped.
use vstd::prelude::*;
use vstd::slice::slice_to_vec;
use vstd::utf8::{encode_utf8, encode_utf8_decode_utf8, is_ascii_chars_encode_utf8};

use crate::encoding::encoding_of_both;
use crate::names::NameMap;
use crate::paths::{PathsView, ResolvedPaths};
use crate::report::RunnerWarnings;
use crate::text::{decimal_digits, digits, digits_tell_numbers_apart, text2, text3};
use crate::unix_path::{joined_paths, path_joined, path_parent, UnixPath};

verus! {

/// The byte between the directories of a search path.
pub const LIST_SEPARATOR: u8 = 0x3a;

/// A keeper that has been started.
#[derive(Debug)]
pub struct KeeperHandle {
    pub pid: u32,
    pub socket_path: UnixPath,
    pub warnings: RunnerWarnings,
}

/// What came of setting up the runner.
#[derive(Debug)]
pub enum RunnerInitialization {
    Ready(RunnerWarnings),
    Fatal(String),
}

/// Why the keeper cannot be looked for.
#[derive(Debug)]
pub enum SearchPathError {
    /// The system does not say which program is running.
    NoExecutable { reason: String },
    /// The program is in no directory.
    NoParent,
    /// The directory of the program is in no directory.
    NoPrefix,
    /// A directory cannot be part of a search path.
    Separator,
}

impl SearchPathError {
    /// What a user is told.
    pub open spec fn text(self) -> Seq<char> {
        match self {
            SearchPathError::NoExecutable { reason } => reason@,
            SearchPathError::NoParent => "current executable has no parent directory"@,
            SearchPathError::NoPrefix => "current executable has no install prefix parent"@,
            SearchPathError::Separator => "path segment contains separator `:`"@,
        }
    }

    /// What a user is told.
    pub fn message(&self) -> (r: String)
        ensures
            r@ == self.text(),
    {
        match self {
            SearchPathError::NoExecutable { reason } => reason.clone(),
            SearchPathError::NoParent => "current executable has no parent directory".to_owned(),
            SearchPathError::NoPrefix => "current executable has no install prefix parent".to_owned(),
            SearchPathError::Separator => "path segment contains separator `:`".to_owned(),
        }
    }
}

/// What the system says of the running program.
pub struct HostFacts {
    /// The path of the program, or why it is not known.
    pub current_exe: Result<UnixPath, String>,
    /// The search path of the program.
    pub path_var: Option<Vec<u8>>,
    /// The directory for sockets of the user.
    pub runtime_dir: Option<UnixPath>,
    pub pid: u32,
    /// Whether the keeper may stand beside the program.
    pub debug_build: bool,
}

/// Whether a directory cannot be part of a search path.
pub open spec fn separates(bytes: Seq<u8>) -> bool {
    exists|i: int| 0 <= i < bytes.len() && #[trigger] bytes[i] == LIST_SEPARATOR
}

/// The directory of the keeper, for a program under the directory `prefix`.
pub open spec fn libexec_dir(prefix: Seq<u8>) -> Seq<u8> {
    path_joined(path_joined(prefix, encode_utf8("libexec"@)), encode_utf8("model-assistant"@))
}

/// `head` and then the directories of the search path `tail`.
pub open spec fn continued(head: Seq<u8>, tail: Option<Vec<u8>>) -> Seq<u8> {
    match tail {
        Some(more) => head.push(LIST_SEPARATOR) + more@,
        None => head,
    }
}

/// The directories in which the keeper is looked for: beside the program, where
/// that is allowed; among the helper programs; and where programs are looked
/// for.
pub open spec fn search_path(facts: HostFacts) -> Result<Seq<u8>, Seq<char>> {
    match facts.current_exe {
        Err(reason) => Err(reason@),
        Ok(exe) => match path_parent(exe@) {
            None => Err("current executable has no parent directory"@),
            Some(bindir) => match path_parent(bindir) {
                None => Err("current executable has no install prefix parent"@),
                Some(prefix) => if separates(libexec_dir(prefix)) || (facts.debug_build
                    && separates(bindir)) {
                    Err("path segment contains separator `:`"@)
                } else if facts.debug_build {
                    Ok(
                        continued(
                            bindir.push(LIST_SEPARATOR) + libexec_dir(prefix),
                            facts.path_var,
                        ),
                    )
                } else {
                    Ok(continued(libexec_dir(prefix), facts.path_var))
                },
            },
        },
    }
}

/// Whether a directory cannot be part of a search path.
fn holds_separator(bytes: &Vec<u8>) -> (r: bool)
    ensures
        r == separates(bytes@),
{
    let mut i: usize = 0;
    while i < bytes.len()
        invariant
            i <= bytes@.len(),
            forall|j: int| 0 <= j < i ==> #[trigger] bytes@[j] != LIST_SEPARATOR,
        decreases bytes.len() - i,
    {
        if bytes[i] == LIST_SEPARATOR {
            return true;
        }
        i += 1;
    }
    false
}

/// The directories in which the keeper is looked for.
pub fn keeper_search_path(facts: &HostFacts) -> (r: Result<Vec<u8>, SearchPathError>)
    ensures
        match search_path(*facts) {
            Ok(bytes) => r is Ok && r->Ok_0@ == bytes,
            Err(text) => r is Err && r->Err_0.text() == text,
        },
{
    let exe = match &facts.current_exe {
        Ok(exe) => exe,
        Err(reason) => return Err(SearchPathError::NoExecutable { reason: reason.clone() }),
    };
    let bindir = match exe.parent() {
        Some(bindir) => bindir,
        None => return Err(SearchPathError::NoParent),
    };
    let prefix = match bindir.parent() {
        Some(prefix) => prefix,
        None => return Err(SearchPathError::NoPrefix),
    };
    let libexec = prefix.join_text("libexec").join_text("model-assistant");
    if holds_separator(&libexec.bytes) || (facts.debug_build && holds_separator(&bindir.bytes)) {
        return Err(SearchPathError::Separator);
    }
    let mut path: Vec<u8> = Vec::new();
    let mut libexec_bytes = libexec.bytes;
    if facts.debug_build {
        let mut bindir_bytes = bindir.bytes;
        path.append(&mut bindir_bytes);
        path.push(LIST_SEPARATOR);
    }
    path.append(&mut libexec_bytes);
    if let Some(more) = &facts.path_var {
        path.push(LIST_SEPARATOR);
        let mut rest = slice_to_vec(more.as_slice());
        path.append(&mut rest);
    }
    proof {
        assert(path@ =~= search_path(*facts)->Ok_0);
    }
    Ok(path)
}

/// The socket at which the keeper of the application `pid` is reached.
pub open spec fn socket_at(runtime_dir: Option<UnixPath>, pid: u32) -> Seq<u8> {
    let dir = match runtime_dir {
        Some(dir) => dir@,
        None => encode_utf8("/tmp"@),
    };
    path_joined(
        dir,
        encode_utf8("model-assistant-runner"@ + "-"@ + digits(pid as nat) + ".sock"@),
    )
}

/// The socket at which the keeper is reached.
pub fn keeper_socket(facts: &HostFacts) -> (r: UnixPath)
    ensures
        r@ == socket_at(facts.runtime_dir, facts.pid),
{
    let head = text2("model-assistant-runner", "-");
    let name = text3(head.as_str(), decimal_digits(facts.pid as u64).as_str(), ".sock");
    match &facts.runtime_dir {
        Some(dir) => dir.join_text(name.as_str()),
        None => UnixPath::from_text("/tmp").join_text(name.as_str()),
    }
}

/// How a keeper is to be started.
#[derive(Debug)]
pub struct KeeperLaunch {
    /// The name of the program.
    pub program: &'static str,
    /// The directories in which it is looked for.
    pub helper_path: Vec<u8>,
    pub models_root: UnixPath,
    pub socket_path: UnixPath,
}

/// What has to be done to set up the runner.
#[derive(Debug)]
pub enum InitializeStep {
    /// Nothing.
    Done(RunnerInitialization),
    /// A keeper has to be started.
    Start(KeeperLaunch),
}

/// No keeper has been started.
#[derive(Debug, Clone, Copy, PartialEq, Eq, Structural)]
pub struct KeeperMissing;

impl KeeperMissing {
    /// What a user is told.
    pub fn message(&self) -> (r: String)
        ensures
            r@ == "runner keeper is not initialized"@,
    {
        "runner keeper is not initialized".to_owned()
    }
}

/// What is to be done when the application ends.
#[derive(Debug)]
pub struct KeeperCleanup {
    /// The process that is told to terminate, and then waited for.
    pub terminate: Option<i32>,
    /// The socket that is removed.
    pub socket_path: UnixPath,
}

/// The process that is told to terminate when the application ends.
pub open spec fn terminated(pid: u32) -> Option<i32> {
    if pid <= i32::MAX {
        Some(pid as i32)
    } else {
        None
    }
}

/// What has to be done to set up a runner.
pub enum SetupView {
    /// Nothing: it has been set up.
    Ready,
    /// It cannot be, for the reason that a user is told.
    Fatal(Seq<char>),
    /// A keeper is started: the program, where it is looked for, the directory of
    /// the models, and the socket.
    Start(Seq<char>, Seq<u8>, Seq<u8>, Seq<u8>),
}

/// What has to be done to set up a runner.
pub open spec fn setup(has_keeper: bool, models_root: Seq<u8>, facts: HostFacts) -> SetupView {
    if has_keeper {
        SetupView::Ready
    } else {
        match search_path(facts) {
            Err(text) => SetupView::Fatal(
                "failed to resolve runner keeper search path: "@ + text,
            ),
            Ok(path) => SetupView::Start(
                "runner-keeper"@,
                path,
                models_root,
                socket_at(facts.runtime_dir, facts.pid),
            ),
        }
    }
}

impl InitializeStep {
    /// Whether the step is as it is seen.
    pub open spec fn seen_as(self, seen: SetupView) -> bool {
        match seen {
            SetupView::Ready => self is Done && self->Done_0 is Ready
                && self->Done_0->Ready_0@.len() == 0,
            SetupView::Fatal(text) => self is Done && self->Done_0 is Fatal
                && self->Done_0->Fatal_0@ == text,
            SetupView::Start(program, path, models_root, socket) => self is Start
                && self->Start_0.program@ == program && self->Start_0.helper_path@ == path
                && self->Start_0.models_root@ == models_root && self->Start_0.socket_path@
                == socket,
        }
    }
}

/// The runner of the application.
pub struct RunnerManager {
    paths: ResolvedPaths,
    runner_env: NameMap<String>,
    keeper: Option<KeeperHandle>,
}

impl RunnerManager {
    /// The directories of the application.
    pub closed spec fn paths(self) -> PathsView {
        self.paths@
    }

    /// What every process of the runner has in its environment.
    pub closed spec fn env(self) -> NameMap<String> {
        self.runner_env
    }

    /// The keeper that has been started, if one has.
    pub closed spec fn keeper(self) -> Option<KeeperHandle> {
        self.keeper
    }

    /// A runner without a keeper.
    pub fn new(paths: ResolvedPaths, runner_env: NameMap<String>) -> (r: Self)
        ensures
            r.paths() == paths@,
            r.env() == runner_env,
            r.keeper() is None,
    {
        RunnerManager { paths, runner_env, keeper: None }
    }

    /// What has to be done to set up the runner: nothing where there is a
    /// keeper.
    pub fn initialize(&self, facts: &HostFacts) -> (r: InitializeStep)
        ensures
            r.seen_as(setup(self.keeper() is Some, self.paths().models_root, *facts)),
            self.keeper() is Some ==> {
                &&& r is Done
                &&& r->Done_0 is Ready
                &&& r->Done_0->Ready_0@ == Seq::<Seq<char>>::empty()
            },
            self.keeper() is None ==> match search_path(*facts) {
                Err(text) => {
                    &&& r is Done
                    &&& r->Done_0 is Fatal
                    &&& r->Done_0->Fatal_0@ == "failed to resolve runner keeper search path: "@
                        + text
                },
                Ok(path) => {
                    &&& r is Start
                    &&& r->Start_0.program@ == "runner-keeper"@
                    &&& r->Start_0.helper_path@ == path
                    &&& r->Start_0.models_root@ == self.paths().models_root
                    &&& r->Start_0.socket_path@ == socket_at(facts.runtime_dir, facts.pid)
                },
            },
    {
        if self.keeper.is_some() {
            return InitializeStep::Done(RunnerInitialization::Ready(RunnerWarnings::new()));
        }
        match keeper_search_path(facts) {
            Err(error) => InitializeStep::Done(
                RunnerInitialization::Fatal(
                    text2(
                        "failed to resolve runner keeper search path: ",
                        error.message().as_str(),
                    ),
                ),
            ),
            Ok(helper_path) => InitializeStep::Start(
                KeeperLaunch {
                    program: "runner-keeper",
                    helper_path,
                    models_root: self.paths.models_root.clone(),
                    socket_path: keeper_socket(facts),
                },
            ),
        }
    }

    /// What came of starting a keeper; one that runs is kept.
    pub fn keeper_started(&mut self, outcome: Result<KeeperHandle, String>) -> (r:
        RunnerInitialization)
        ensures
            final(self).paths() == old(self).paths(),
            final(self).env() == old(self).env(),
            match outcome {
                Ok(handle) => {
                    &&& final(self).keeper() == Some(handle)
                    &&& r is Ready
                    &&& r->Ready_0@ == handle.warnings@
                },
                Err(error) => {
                    &&& final(self).keeper() == old(self).keeper()
                    &&& r is Fatal
                    &&& r->Fatal_0@ == "failed to start runner keeper: "@ + error@
                },
            },
    {
        match outcome {
            Ok(handle) => {
                let warnings = handle.warnings.clone();
                self.keeper = Some(handle);
                RunnerInitialization::Ready(warnings)
            },
            Err(error) => RunnerInitialization::Fatal(
                text2("failed to start runner keeper: ", error.as_str()),
            ),
        }
    }

    /// Gives up the keeper, and tells what is to be done with it.
    pub fn cleanup(&mut self) -> (r: Option<KeeperCleanup>)
        ensures
            final(self).keeper() is None,
            final(self).paths() == old(self).paths(),
            final(self).env() == old(self).env(),
            r is Some == old(self).keeper() is Some,
            r matches Some(plan) ==> {
                let handle = old(self).keeper()->Some_0;
                &&& plan.socket_path == handle.socket_path
                &&& plan.terminate == terminated(handle.pid)
                &&& plan.terminate == (if handle.pid <= i32::MAX {
                    Some(handle.pid as i32)
                } else {
                    None
                })
            },
    {
        match self.keeper.take() {
            Some(handle) => Some(
                KeeperCleanup {
                    terminate: if handle.pid <= i32::MAX as u32 {
                        Some(handle.pid as i32)
                    } else {
                        None
                    },
                    socket_path: handle.socket_path,
                },
            ),
            None => None,
        }
    }

    /// What every process of the runner has in its environment.
    pub fn runner_env(&self) -> (r: &NameMap<String>)
        ensures
            *r == self.env(),
    {
        &self.runner_env
    }

    /// The socket at which the keeper is reached.
    pub fn keeper_socket_path(&self) -> (r: Result<UnixPath, KeeperMissing>)
        ensures
            r is Ok == self.keeper() is Some,
            r matches Ok(path) ==> path@ == self.keeper()->Some_0.socket_path@,
    {
        match &self.keeper {
            Some(handle) => Ok(handle.socket_path.clone()),
            None => Err(KeeperMissing),
        }
    }
}

/// The helper programs of an application that is installed under a prefix are
/// looked for first in the prefix's own directory of them, then where the search
/// path says; while it is being developed, before that beside the program.
pub proof fn search_path_begins_at_home(
    facts: HostFacts,
    exe: Seq<u8>,
    bindir: Seq<u8>,
    prefix: Seq<u8>,
)
    requires
        facts.current_exe is Ok,
        facts.current_exe->Ok_0@ == exe,
        path_parent(exe) == Some(bindir),
        path_parent(bindir) == Some(prefix),
    ensures
        ({
            let home = path_joined(
                path_joined(prefix, encode_utf8("libexec"@)),
                encode_utf8("model-assistant"@),
            );
            let cut = home.contains(':' as u8) || (facts.debug_build && bindir.contains(':' as u8));
            let beside = if facts.debug_build {
                bindir.push(':' as u8)
            } else {
                Seq::empty()
            };
            let rest = match facts.path_var {
                Some(more) => seq![':' as u8] + more@,
                None => Seq::empty(),
            };
            &&& search_path(facts) is Ok <==> !cut
            &&& !cut ==> search_path(facts)->Ok_0 == beside + home + rest
            &&& cut ==> search_path(facts)->Err_0 == "path segment contains separator `:`"@
        }),
{
    let home = libexec_dir(prefix);
    assert(separates(home) <==> home.contains(':' as u8)) by {
        separates_holds(home);
    }
    assert(separates(bindir) <==> bindir.contains(':' as u8)) by {
        separates_holds(bindir);
    }
    let beside = if facts.debug_build {
        bindir.push(':' as u8)
    } else {
        Seq::empty()
    };
    let rest = match facts.path_var {
        Some(more) => seq![':' as u8] + more@,
        None => Seq::empty(),
    };
    if search_path(facts) is Ok {
        assert(search_path(facts)->Ok_0 =~= beside + home + rest);
    }
}

proof fn separates_holds(bytes: Seq<u8>)
    ensures
        separates(bytes) <==> bytes.contains(':' as u8),
{
    if separates(bytes) {
        let i = choose|i: int| 0 <= i < bytes.len() && #[trigger] bytes[i] == LIST_SEPARATOR;
        assert(bytes[i] == ':' as u8);
    }
    if bytes.contains(':' as u8) {
        let i = bytes.index_of(':' as u8);
        assert(bytes[i] == LIST_SEPARATOR);
    }
}

/// Without the place of the program, or with one that is in no directory of a
/// prefix, there is no search path, and the reason is told.
pub proof fn no_search_path_without_a_prefix(facts: HostFacts)
    ensures
        facts.current_exe matches Err(reason) ==> search_path(facts) == Err::<
            Seq<u8>,
            Seq<char>,
        >(reason@),
        facts.current_exe matches Ok(exe) ==> {
            &&& path_parent(exe@) is None ==> search_path(facts) == Err::<Seq<u8>, Seq<char>>(
                "current executable has no parent directory"@,
            )
            &&& path_parent(exe@) matches Some(bindir) ==> path_parent(bindir) is None
                ==> search_path(facts) == Err::<Seq<u8>, Seq<char>>(
                "current executable has no install prefix parent"@,
            )
        },
{
}

/// The keeper of an application is reached in the directory for sockets of the
/// user, or in `/tmp` where there is none, under a name that holds the number of
/// the application.
pub proof fn socket_has_its_place(runtime_dir: Option<UnixPath>, pid: u32)
    ensures
        socket_at(None, pid) == path_joined(
            encode_utf8("/tmp"@),
            encode_utf8("model-assistant-runner-"@ + digits(pid as nat) + ".sock"@),
        ),
        runtime_dir matches Some(dir) ==> socket_at(runtime_dir, pid) == path_joined(
            dir@,
            encode_utf8("model-assistant-runner-"@ + digits(pid as nat) + ".sock"@),
        ),
{
    reveal_strlit("model-assistant-runner");
    reveal_strlit("-");
    reveal_strlit("model-assistant-runner-");
    assert("model-assistant-runner"@ + "-"@ =~= "model-assistant-runner-"@);
}

/// Two applications reach their keepers at two places.
pub proof fn sockets_differ(runtime_dir: Option<UnixPath>, pid: u32, other: u32)
    requires
        pid != other,
    ensures
        socket_at(runtime_dir, pid) != socket_at(runtime_dir, other),
{
    let dir = match runtime_dir {
        Some(dir) => dir@,
        None => encode_utf8("/tmp"@),
    };
    let head = "model-assistant-runner"@ + "-"@;
    let a = head + digits(pid as nat) + ".sock"@;
    let b = head + digits(other as nat) + ".sock"@;
    digits_tell_numbers_apart(pid as nat, other as nat);
    if a == b {
        let n = a.len() - ".sock"@.len();
        assert(a.subrange(head.len() as int, n) =~= digits(pid as nat));
        assert(b.subrange(head.len() as int, n) =~= digits(other as nat));
    }
    encode_utf8_decode_utf8(a);
    encode_utf8_decode_utf8(b);
    name_is_relative(a);
    name_is_relative(b);
    let x = encode_utf8(a);
    let y = encode_utf8(b);
    if path_joined(dir, x) == path_joined(dir, y) {
        joined_paths(dir, x);
        joined_paths(dir, y);
        assert(x =~= y);
    }
}

proof fn name_is_relative(name: Seq<char>)
    requires
        ("model-assistant-runner"@ + "-"@).is_prefix_of(name),
    ensures
        encode_utf8(name).len() > 0,
        encode_utf8(name)[0] != '/' as u8,
{
    reveal_strlit("model-assistant-runner");
    let first = "model-assistant-runner"@ + "-"@;
    let head = seq!['m'];
    assert(first[0] == 'm');
    assert(name[0] == 'm');
    assert(name =~= head + name.skip(1));
    encoding_of_both(head, name.skip(1));
    is_ascii_chars_encode_utf8(head);
    assert(encode_utf8(head)[0] == head[0] as u8);
}

/// A keeper is started if and only if there is none and it is known where to look
/// for it: the program of the keeper, with the directory of the models and the
/// socket of the application. Where it is not known, the user is told why.
pub proof fn keeper_is_started_once(has_keeper: bool, models_root: Seq<u8>, facts: HostFacts)
    ensures
        ({
            let step = setup(has_keeper, models_root, facts);
            &&& step is Ready <==> has_keeper
            &&& step is Start <==> !has_keeper && search_path(facts) is Ok
            &&& step matches SetupView::Start(program, path, root, socket) ==> {
                &&& program == "runner-keeper"@
                &&& search_path(facts) == Ok::<Seq<u8>, Seq<char>>(path)
                &&& root == models_root
                &&& socket == socket_at(facts.runtime_dir, facts.pid)
            }
            &&& step matches SetupView::Fatal(text) ==> text
                == "failed to resolve runner keeper search path: "@ + search_path(facts)->Err_0
        }),
{
}

/// The process that is told to terminate is that of the keeper itself; a number
/// that stands for no process is told nothing.
pub proof fn keeper_is_terminated(pid: u32)
    ensures
        terminated(pid) is Some <==> pid <= i32::MAX,
        terminated(pid) matches Some(number) ==> number == pid && number >= 0,
{
}

} // verus!
