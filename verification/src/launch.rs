//! How a model is launched: the command, its environment, and what is heard of
//! the process.
use vstd::prelude::*;

use crate::config::{chosen, AppConfig, BindError, ModeChoice, ModelConfig, ResolvedModeBinding};
use crate::ipc::{ClientMessage, KeeperFrame, KeeperMessage, KeeperStatus};
use crate::manager::RunnerManager;
use crate::names::NameMap;
use crate::paths::{PathsView, ResolvedPaths};
use crate::text::{join, joined, push_all, push_text, text2, text3, text7, texts};
use crate::unix_path::{lossy_text, UnixPath};

verus! {

/// What is heard of a process.
#[derive(Debug, Clone)]
pub enum ProcessEvent {
    KeeperStatus(KeeperStatus),
    KeeperMessage(KeeperMessage),
}

impl ProcessEvent {
    /// Whether nothing more will be heard of the process.
    pub open spec fn is_last(self) -> bool {
        match self {
            ProcessEvent::KeeperStatus(status) => status.error_text() is Some,
            ProcessEvent::KeeperMessage(message) => message is ChildExited,
        }
    }

    pub fn child(message: KeeperMessage) -> (r: Self)
        ensures
            r == ProcessEvent::KeeperMessage(message),
    {
        ProcessEvent::KeeperMessage(message)
    }

    pub fn keeper_status(status: KeeperStatus) -> (r: Self)
        ensures
            r == ProcessEvent::KeeperStatus(status),
    {
        ProcessEvent::KeeperStatus(status)
    }

    /// What a frame of the keeper tells.
    pub fn from_keeper_frame(frame: KeeperFrame) -> (r: Self)
        ensures
            r == (match frame {
                KeeperFrame::KeeperStatus { status } => ProcessEvent::KeeperStatus(status),
                KeeperFrame::KeeperMessage { message } => ProcessEvent::KeeperMessage(message),
            }),
    {
        match frame {
            KeeperFrame::KeeperStatus { status } => Self::keeper_status(status),
            KeeperFrame::KeeperMessage { message } => Self::child(message),
        }
    }

    /// The bytes that the process has put out, if the event tells of such.
    pub fn child_output(&self) -> (r: Option<&[u8]>)
        ensures
            match self {
                ProcessEvent::KeeperStatus(_) => r is None,
                ProcessEvent::KeeperMessage(message) => {
                    &&& r is Some == message.output() is Some
                    &&& r matches Some(bytes) ==> message.output() == Some(bytes@)
                },
            },
    {
        match self {
            ProcessEvent::KeeperStatus(_) => None,
            ProcessEvent::KeeperMessage(message) => message.output_bytes(),
        }
    }

    /// What has gone wrong with the keeper, if anything has.
    pub fn keeper_error_message(&self) -> (r: Option<&str>)
        ensures
            match self {
                ProcessEvent::KeeperStatus(status) => {
                    &&& r is Some == status.error_text() is Some
                    &&& r matches Some(text) ==> status.error_text() == Some(text@)
                },
                ProcessEvent::KeeperMessage(_) => r is None,
            },
    {
        match self {
            ProcessEvent::KeeperStatus(status) => status.error_message(),
            ProcessEvent::KeeperMessage(_) => None,
        }
    }

    /// Whether the process has ended.
    pub fn is_child_exited(&self) -> (r: bool)
        ensures
            r == (self matches ProcessEvent::KeeperMessage(message) && message is ChildExited),
    {
        match self {
            ProcessEvent::KeeperStatus(_) => false,
            ProcessEvent::KeeperMessage(message) => message.is_child_exited(),
        }
    }

    /// Whether nothing more will be heard of the process.
    pub fn ends_process_stream(&self) -> (r: bool)
        ensures
            r == self.is_last(),
    {
        self.keeper_error_message().is_some() || self.is_child_exited()
    }
}

/// A process that is to be started.
#[derive(Debug, Clone)]
pub struct LaunchPlan {
    pub interactive: bool,
    pub command_preview: String,
    pub command: Vec<String>,
    pub env: NameMap<String>,
}

/// The environment that every process begins with.
pub open spec fn base_env() -> Map<Seq<char>, Seq<char>> {
    Map::<Seq<char>, Seq<char>>::empty().insert(
        "PATH"@,
        "/usr/local/sbin:/usr/local/bin:/usr/sbin:/usr/bin:/sbin:/bin"@,
    ).insert("HOME"@, "/root"@).insert("USER"@, "root"@).insert("LOGNAME"@, "root"@).insert(
        "LANG"@,
        "C.UTF-8"@,
    )
}

/// The environment that every process begins with.
pub fn base_child_env() -> (r: NameMap<String>)
    ensures
        r.wf(),
        r.text_map() == base_env(),
{
    let mut env = NameMap::<String>::new();
    proof {
        assert(env.text_map() =~= Map::empty());
    }
    env.insert_text("PATH", "/usr/local/sbin:/usr/local/bin:/usr/sbin:/usr/bin:/sbin:/bin");
    env.insert_text("HOME", "/root");
    env.insert_text("USER", "root");
    env.insert_text("LOGNAME", "root");
    env.insert_text("LANG", "C.UTF-8");
    env
}

/// The command that runs a model: the root of the runner is entered, and there
/// the program gets the arguments of the mode, those that the model adds to the
/// runtime, the path of the model, and those that the model adds to the mode.
pub open spec fn command_of(
    paths: PathsView,
    model: ModelConfig,
    choice: ModeChoice,
) -> Seq<Seq<char>> {
    let head = seq!["chroot"@, lossy_text(paths.runner_root), choice.mode.executable@];
    let added = match choice.changes {
        Some(changes) => texts(changes.args@),
        None => Seq::empty(),
    };
    head + texts(choice.mode.args@) + texts(choice.mapping.args@) + seq![
        choice.runtime.model_arg@,
        "/mnt"@ + "/"@ + model.file@,
    ] + added
}

/// The environment of a process: what is given for the mode goes before what
/// is given for the runtime, for the runner, and for all.
pub open spec fn env_of(
    runner_env: NameMap<String>,
    choice: ModeChoice,
) -> Map<Seq<char>, Seq<char>> {
    let env = base_env().union_prefer_right(runner_env.text_map()).union_prefer_right(
        choice.mapping.env.text_map(),
    );
    match choice.changes {
        Some(changes) => env.union_prefer_right(changes.env.text_map()),
        None => env,
    }
}

/// How a command is shown: what is run, without the way into the runner.
pub open spec fn preview_of(
    model_id: Seq<char>,
    runtime_name: Seq<char>,
    mode_name: Seq<char>,
    command: Seq<Seq<char>>,
) -> Seq<char> {
    "["@ + model_id + "/"@ + runtime_name + "/"@ + mode_name + "] "@ + joined(
        if command.len() >= 2 {
            command.skip(2)
        } else {
            Seq::empty()
        },
        " "@,
    )
}

impl LaunchPlan {
    fn build_env(runner: &RunnerManager, binding: &ResolvedModeBinding<'_>) -> (r: NameMap<String>)
        ensures
            r.wf(),
            r.text_map() == env_of(runner.env(), binding.choice()),
    {
        let mut env = base_child_env();
        env.extend(runner.runner_env());
        env.extend(binding.runtime_env());
        if let Some(mode_override) = binding.mode_override() {
            env.extend(&mode_override.env);
        }
        env
    }

    fn build_command(
        paths: &ResolvedPaths,
        model: &ModelConfig,
        binding: &ResolvedModeBinding<'_>,
    ) -> (r: Vec<String>)
        ensures
            texts(r@) == command_of(paths@, *model, binding.choice()),
    {
        let mut command: Vec<String> = Vec::new();
        push_text(&mut command, "chroot".to_owned());
        push_text(&mut command, paths.runner_root.display());
        push_text(&mut command, binding.executable().clone());
        push_all(&mut command, binding.mode_args());
        push_all(&mut command, binding.runtime_args());
        push_text(&mut command, binding.model_arg().clone());
        push_text(&mut command, text3("/mnt", "/", model.file.as_str()));
        if let Some(mode_override) = binding.mode_override() {
            push_all(&mut command, &mode_override.args);
        }
        proof {
            assert(texts(command@) =~= command_of(paths@, *model, binding.choice()));
        }
        command
    }

    fn build_command_preview(
        model_id: &str,
        runtime_name: &str,
        mode_name: &str,
        command: &Vec<String>,
    ) -> (r: String)
        ensures
            r@ == preview_of(model_id@, runtime_name@, mode_name@, texts(command@)),
    {
        let mut shown: Vec<String> = Vec::new();
        let mut i: usize = 2;
        proof {
            assert(texts(shown@) =~= Seq::empty());
        }
        while i < command.len()
            invariant
                2 <= i,
                i <= command@.len() || i == 2,
                texts(shown@) == (if i <= command@.len() {
                    texts(command@).subrange(2, i as int)
                } else {
                    Seq::empty()
                }),
            decreases command.len() - i,
        {
            push_text(&mut shown, command[i].clone());
            proof {
                assert(texts(command@).subrange(2, i + 1) =~= texts(command@).subrange(
                    2,
                    i as int,
                ).push(texts(command@)[i as int]));
            }
            i += 1;
        }
        proof {
            if command@.len() >= 2 {
                assert(texts(command@).subrange(2, i as int) =~= texts(command@).skip(2));
            }
        }
        let head = text7("[", model_id, "/", runtime_name, "/", mode_name, "] ");
        text2(head.as_str(), join(&shown, " ").as_str())
    }

    /// How a model is run by a runtime in a mode.
    pub fn build(
        config: &AppConfig,
        model_id: &str,
        model: &ModelConfig,
        runtime_name: &str,
        mode_name: &str,
        paths: &ResolvedPaths,
        runner: &RunnerManager,
    ) -> (r: Result<Self, BindError>)
        ensures
            r is Ok == config.binds(*model, runtime_name@, mode_name@),
            r matches Ok(plan) ==> {
                let choice = chosen(*config, *model, runtime_name@, mode_name@);
                let command = command_of(paths@, *model, choice);
                &&& plan.interactive == choice.mode.interactive
                &&& texts(plan.command@) == command
                &&& plan.command_preview@ == preview_of(
                    model_id@,
                    runtime_name@,
                    mode_name@,
                    command,
                )
                &&& plan.env.wf()
                &&& plan.env.text_map() == env_of(runner.env(), choice)
            },
            r matches Err(error) ==> error.text() == config.bind_error_text(
                model_id@,
                *model,
                runtime_name@,
                mode_name@,
            ),
    {
        let binding = match config.bind_mode(model_id, model, runtime_name, mode_name) {
            Ok(binding) => binding,
            Err(error) => return Err(error),
        };
        let command = Self::build_command(paths, model, &binding);
        let command_preview = Self::build_command_preview(
            model_id,
            runtime_name,
            mode_name,
            &command,
        );
        let env = Self::build_env(runner, &binding);
        Ok(LaunchPlan { interactive: binding.interactive(), command_preview, command, env })
    }

    /// The request to start the process.
    pub fn into_request(self) -> (r: ClientMessage)
        ensures
            requests(r, self),
            r == (ClientMessage::Spawn { argv: self.command, env: self.env }),
    {
        ClientMessage::Spawn { argv: self.command, env: self.env }
    }
}

/// Whether a request asks for the process of a plan.
pub open spec fn requests(request: ClientMessage, plan: LaunchPlan) -> bool {
    request == (ClientMessage::Spawn { argv: plan.command, env: plan.env })
}

/// What the keeper has answered to the request to start a process.
#[derive(Debug)]
pub enum SpawnReply {
    Spawned,
    Refused(String),
}

/// Why a process does not run, as a first frame of the keeper tells it; nothing
/// where it runs.
pub open spec fn refusal(frame: KeeperFrame, shown: Seq<char>) -> Option<Seq<char>> {
    match frame {
        KeeperFrame::KeeperMessage { message } => if message is ChildSpawned {
            None
        } else {
            Some("unexpected first keeper response: "@ + shown)
        },
        KeeperFrame::KeeperStatus { status } => Some(
            match status.error_text() {
                Some(text) => text,
                None => "runner keeper reported an unknown error"@,
            },
        ),
    }
}

/// What a frame of the keeper tells.
pub open spec fn event_of(frame: KeeperFrame) -> ProcessEvent {
    match frame {
        KeeperFrame::KeeperStatus { status } => ProcessEvent::KeeperStatus(status),
        KeeperFrame::KeeperMessage { message } => ProcessEvent::KeeperMessage(message),
    }
}

/// What a first frame of the keeper means: that the process runs, or why it
/// does not. `shown` is the frame as it is shown to a user.
pub fn spawn_reply(frame: &KeeperFrame, shown: &str) -> (r: SpawnReply)
    ensures
        r is Spawned == refusal(*frame, shown@) is None,
        r matches SpawnReply::Refused(text) ==> refusal(*frame, shown@) == Some(text@),
        match frame {
            KeeperFrame::KeeperMessage { message } => if message is ChildSpawned {
                r is Spawned
            } else {
                r is Refused && r->Refused_0@ == "unexpected first keeper response: "@ + shown@
            },
            KeeperFrame::KeeperStatus { status } => r is Refused && r->Refused_0@ == (
            match status.error_text() {
                Some(text) => text,
                None => "runner keeper reported an unknown error"@,
            }),
        },
{
    match frame {
        KeeperFrame::KeeperMessage { message: KeeperMessage::ChildSpawned } => SpawnReply::Spawned,
        KeeperFrame::KeeperStatus { status } => match status.error_message() {
            Some(text) => SpawnReply::Refused(text.to_owned()),
            None => SpawnReply::Refused("runner keeper reported an unknown error".to_owned()),
        },
        _ => SpawnReply::Refused(text2("unexpected first keeper response: ", shown)),
    }
}

/// What a user is told where the keeper cannot be reached.
pub fn connect_failure(socket_path: &UnixPath) -> (r: String)
    ensures
        r@ == "failed to connect runner keeper at "@ + lossy_text(socket_path@),
{
    text2("failed to connect runner keeper at ", socket_path.display().as_str())
}

/// A frame as an event, and whether it is the last.
pub fn forwarded(frame: KeeperFrame) -> (r: (ProcessEvent, bool))
    ensures
        r.0 == event_of(frame),
        r.0 == (match frame {
            KeeperFrame::KeeperStatus { status } => ProcessEvent::KeeperStatus(status),
            KeeperFrame::KeeperMessage { message } => ProcessEvent::KeeperMessage(message),
        }),
        r.1 == r.0.is_last(),
{
    let event = ProcessEvent::from_keeper_frame(frame);
    let last = event.ends_process_stream();
    (event, last)
}

/// A variable that is given for the mode, or else for the runtime, or else for
/// the runner, has that value; the others are those that every process begins
/// with.
pub proof fn later_settings_win(runner_env: NameMap<String>, choice: ModeChoice, name: Seq<char>)
    ensures
        ({
            let env = env_of(runner_env, choice);
            if choice.changes is Some && choice.changes->Some_0.env.has(name) {
                env.contains_key(name) && env[name] == choice.changes->Some_0.env.at(name)@
            } else if choice.mapping.env.has(name) {
                env.contains_key(name) && env[name] == choice.mapping.env.at(name)@
            } else if runner_env.has(name) {
                env.contains_key(name) && env[name] == runner_env.at(name)@
            } else {
                &&& env.contains_key(name) == base_env().contains_key(name)
                &&& env.contains_key(name) ==> env[name] == base_env()[name]
            }
        }),
{
}

/// The path of the model follows the argument that announces it.
pub proof fn model_path_follows_its_argument(
    paths: PathsView,
    model: ModelConfig,
    choice: ModeChoice,
)
    ensures
        ({
            let command = command_of(paths, model, choice);
            let at = 3int + choice.mode.args@.len() + choice.mapping.args@.len();
            &&& command[0] == "chroot"@
            &&& command[1] == lossy_text(paths.runner_root)
            &&& command[2] == choice.mode.executable@
            &&& command[at] == choice.runtime.model_arg@
            &&& command[at + 1] == "/mnt"@ + "/"@ + model.file@
        }),
{
}

/// The arguments of the mode stand behind the program in their order, then those
/// that the model adds to the runtime, then the path of the model behind the
/// argument that announces it, and at last those that the model adds to the mode,
/// with nothing after them.
pub proof fn arguments_keep_their_places(
    paths: PathsView,
    model: ModelConfig,
    choice: ModeChoice,
)
    ensures
        ({
            let command = command_of(paths, model, choice);
            let mode = choice.mode.args@;
            let mapping = choice.mapping.args@;
            let path_at = 3int + mode.len() + mapping.len() + 1;
            &&& command[0] == "chroot"@
            &&& command[1] == lossy_text(paths.runner_root)
            &&& command[2] == choice.mode.executable@
            &&& forall|i: int| 0 <= i < mode.len() ==> command[3 + i] == (#[trigger] mode[i])@
            &&& forall|i: int|
                0 <= i < mapping.len() ==> command[3 + mode.len() + i] == (#[trigger] mapping[i])@
            &&& command[path_at - 1] == choice.runtime.model_arg@
            &&& command[path_at] == "/mnt/"@ + model.file@
            &&& match choice.changes {
                Some(changes) => {
                    &&& command.len() == path_at + 1 + changes.args@.len()
                    &&& forall|i: int|
                        0 <= i < changes.args@.len() ==> command[path_at + 1 + i] == (
                        #[trigger] changes.args@[i])@
                },
                None => command.len() == path_at + 1,
            }
        }),
{
    reveal_strlit("/mnt");
    reveal_strlit("/");
    reveal_strlit("/mnt/");
    assert("/mnt"@ + "/"@ + model.file@ =~= "/mnt/"@ + model.file@);
}

/// A mode that gets other arguments changes nothing of the command but these.
pub proof fn mode_arguments_change_nothing_else(
    paths: PathsView,
    model: ModelConfig,
    choice: ModeChoice,
    other: ModeChoice,
)
    requires
        other.runtime == choice.runtime,
        other.mapping == choice.mapping,
        other.changes == choice.changes,
        other.mode.executable == choice.mode.executable,
    ensures
        ({
            let command = command_of(paths, model, choice);
            let changed = command_of(paths, model, other);
            &&& changed.take(3) == command.take(3)
            &&& changed.skip(3int + other.mode.args@.len()) == command.skip(
                3int + choice.mode.args@.len(),
            )
        }),
{
    let command = command_of(paths, model, choice);
    let changed = command_of(paths, model, other);
    assert(changed.take(3) =~= command.take(3));
    assert(changed.skip(3int + other.mode.args@.len()) =~= command.skip(
        3int + choice.mode.args@.len(),
    ));
}

/// What every process begins with is a search path, a home, a user and a
/// language, and nothing else.
pub proof fn every_process_begins_with(name: Seq<char>)
    ensures
        base_env().contains_key(name) <==> name == "PATH"@ || name == "HOME"@ || name == "USER"@
            || name == "LOGNAME"@ || name == "LANG"@,
        base_env()["PATH"@] == "/usr/local/sbin:/usr/local/bin:/usr/sbin:/usr/bin:/sbin:/bin"@,
        base_env()["HOME"@] == "/root"@,
        base_env()["USER"@] == "root"@,
        base_env()["LOGNAME"@] == "root"@,
        base_env()["LANG"@] == "C.UTF-8"@,
{
    reveal_strlit("PATH");
    reveal_strlit("HOME");
    reveal_strlit("USER");
    reveal_strlit("LOGNAME");
    reveal_strlit("LANG");
    assert("PATH"@[0] == 'P');
    assert("HOME"@[0] == 'H');
    assert("USER"@[0] == 'U');
    assert("LOGNAME"@.len() == 7);
    assert("LANG"@.len() == 4);
    assert("LANG"@[0] == 'L');
}

/// The environment of a process has a name if and only if it is given for all,
/// for the runner, for the runtime or for the mode.
pub proof fn environment_holds_what_is_given(
    runner_env: NameMap<String>,
    choice: ModeChoice,
    name: Seq<char>,
)
    ensures
        env_of(runner_env, choice).contains_key(name) <==> {
            ||| base_env().contains_key(name)
            ||| runner_env.has(name)
            ||| choice.mapping.env.has(name)
            ||| choice.changes is Some && choice.changes->Some_0.env.has(name)
        },
{
}

/// A command is shown behind the model, the runtime and the mode, without the
/// way into the runner.
pub proof fn preview_shows_what_is_run(
    model_id: Seq<char>,
    runtime_name: Seq<char>,
    mode_name: Seq<char>,
    command: Seq<Seq<char>>,
)
    ensures
        ({
            let preview = preview_of(model_id, runtime_name, mode_name, command);
            let head = "["@ + model_id + "/"@ + runtime_name + "/"@ + mode_name + "] "@;
            &&& head.is_prefix_of(preview)
            &&& command.len() <= 2 ==> preview == head
            &&& command.len() == 3 ==> preview == head + command[2]
            &&& forall|last: Seq<char>|
                command.len() >= 3 ==> #[trigger] preview_of(
                    model_id,
                    runtime_name,
                    mode_name,
                    command.push(last),
                ) == preview + " "@ + last
        }),
{
    let preview = preview_of(model_id, runtime_name, mode_name, command);
    let head = "["@ + model_id + "/"@ + runtime_name + "/"@ + mode_name + "] "@;
    assert(preview.take(head.len() as int) =~= head);
    if command.len() <= 2 {
        if command.len() == 2 {
            assert(command.skip(2) =~= Seq::empty());
        }
        assert(preview =~= head);
    }
    if command.len() == 3 {
        assert(command.skip(2) =~= seq![command[2]]);
    }
    if command.len() >= 3 {
        assert forall|last: Seq<char>| #[trigger] preview_of(
            model_id,
            runtime_name,
            mode_name,
            command.push(last),
        ) == preview + " "@ + last by {
            let shown = command.push(last).skip(2);
            assert(shown.drop_last() =~= command.skip(2));
            assert(preview_of(model_id, runtime_name, mode_name, command.push(last)) =~= preview
                + " "@ + last);
        }
    }
}

/// Nothing more is heard of a process once it has ended or the keeper has
/// failed, and before that there is.
pub proof fn last_events(message: KeeperMessage, status: KeeperStatus)
    ensures
        ProcessEvent::KeeperMessage(message).is_last() <==> message == KeeperMessage::ChildExited,
        ProcessEvent::KeeperStatus(status).is_last() <==> status.error is Some,
{
}

/// A process runs if and only if the first frame of the keeper says so; an error
/// of the keeper is told in its words.
pub proof fn first_frame_decides(status: KeeperStatus, message: KeeperMessage, shown: Seq<char>)
    ensures
        refusal(KeeperFrame::KeeperMessage { message }, shown) is None <==> message
            == KeeperMessage::ChildSpawned,
        message != KeeperMessage::ChildSpawned ==> refusal(
            KeeperFrame::KeeperMessage { message },
            shown,
        ) == Some("unexpected first keeper response: "@ + shown),
        status.error matches Some(text) ==> refusal(KeeperFrame::KeeperStatus { status }, shown)
            == Some(text@),
        status.error is None ==> refusal(KeeperFrame::KeeperStatus { status }, shown) == Some(
            "runner keeper reported an unknown error"@,
        ),
{
}

/// A frame is told as it came.
pub proof fn frames_are_told_as_they_came(status: KeeperStatus, message: KeeperMessage)
    ensures
        event_of(KeeperFrame::KeeperStatus { status }) == ProcessEvent::KeeperStatus(status),
        event_of(KeeperFrame::KeeperMessage { message }) == ProcessEvent::KeeperMessage(message),
{
}

/// A request for the process of a plan has its arguments, in order, and its
/// environment.
pub proof fn request_has_the_plan(request: ClientMessage, plan: LaunchPlan)
    requires
        requests(request, plan),
    ensures
        request is Spawn,
        request->argv@.len() == plan.command@.len(),
        forall|i: int|
            0 <= i < plan.command@.len() ==> (#[trigger] request->argv@[i])@ == plan.command@[i]@,
        forall|name: Seq<char>| #[trigger] request->env.has(name) <==> plan.env.has(name),
        forall|name: Seq<char>|
            plan.env.has(name) ==> (#[trigger] request->env.at(name))@ == plan.env.at(name)@,
{
}

} // verus!
