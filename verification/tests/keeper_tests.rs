use model_assistant::ipc::{
    read_json_line, write_json_line, ClientMessage, KeeperFrame, KeeperMessage, StreamClosed,
};
use model_assistant::keeper::{
    client_command, exit_frame, fatal_line, first_request, keeper_child_result, read_pipe_chunk, relay_output,
    spawn_finished, take_line, ClientAction, ClientEvent, ClientState, CommandAction, FirstRequest, Handshake, HandshakeStep, KeeperFailure, OutputStream,
    PipeRead, SpawnAction, SpawnOutcome, WaitOutcome,
};
use model_assistant::manager::{
    keeper_search_path, keeper_socket, HostFacts, InitializeStep, KeeperHandle, KeeperMissing, RunnerInitialization,
    RunnerManager,
};
use model_assistant::mounts::{
    is_wanted_device, DeviceEntry, HostDevices, KeeperRuntime, KernelFs, MountFlags, MountStep, UnmountAction,
    UnmountOutcome,
};
use model_assistant::names::NameMap;
use model_assistant::namespaces::{enter_keeper_context, namespace_writes, NamespaceFailure, NamespaceStep};
use model_assistant::paths::ResolvedPaths;
use model_assistant::report::RunnerWarnings;
use model_assistant::unix_path::UnixPath;

fn path(text: &str) -> UnixPath {
    UnixPath::from_text(text)
}

fn paths() -> ResolvedPaths {
    ResolvedPaths::discover(Some(path("/m"))).unwrap()
}

fn facts() -> HostFacts {
    HostFacts {
        current_exe: Ok(path("/opt/app/bin/model-assistant")),
        path_var: Some(b"/usr/bin:/bin".to_vec()),
        runtime_dir: Some(path("/run/user/1000")),
        pid: 4711,
        debug_build: false,
    }
}

fn search_text(facts: &HostFacts) -> String {
    match keeper_search_path(facts) {
        Ok(bytes) => String::from_utf8(bytes).unwrap(),
        Err(error) => format!("error: {}", error.message()),
    }
}

fn error_of(frame: &KeeperFrame) -> String {
    match frame {
        KeeperFrame::KeeperStatus { status } => status.error_message().unwrap().to_string(),
        KeeperFrame::KeeperMessage { .. } => panic!("an error was expected"),
    }
}

fn devices() -> HostDevices {
    HostDevices {
        has_kfd: false,
        has_dri: false,
        has_accel: false,
        entries: vec![],
        home: Some(path("/home/user")),
        home_is_dir: true,
    }
}

fn shown(step: &MountStep) -> String {
    match step {
        MountStep::MakePrivate => "private".to_string(),
        MountStep::EnsureDir { path } => format!("dir {}", path.display()),
        MountStep::EnsureFile { path } => format!("file {}", path.display()),
        MountStep::MountFs { fs, target } => format!("mount {} {}", fs.name(), target.display()),
        MountStep::Bind { source, target, tree } => {
            format!("bind {} {} {}", source.display(), target.display(), tree)
        }
        MountStep::Note { message } => format!("note {message}"),
    }
}

#[test]
fn a_message_survives_the_stream() {
    let text = "{\"type\":\"stdin\",\"data\":\"\u{e4}\"}";
    let line = write_json_line(text.as_bytes().to_vec());
    assert_eq!(line.last(), Some(&b'\n'));
    let read = String::from_utf8(line).unwrap();
    assert_eq!(read_json_line(read.len(), &read).unwrap(), text);
    assert_eq!(read_json_line(3, "x \r\n").unwrap(), "x");
}

#[test]
fn messages_are_read_one_by_one() {
    let messages = ["{\"data\":\"a\\nb\"}", "{}", "[\"\u{e4}\u{6f22}\"]"];
    let mut stream = Vec::new();
    for message in messages {
        stream.extend(write_json_line(message.as_bytes().to_vec()));
    }
    let text = String::from_utf8(stream).unwrap();
    let lines: Vec<&str> = text.split_inclusive('\n').collect();
    let read: Vec<String> = lines.iter().map(|line| read_json_line(line.len(), line).unwrap()).collect();
    assert_eq!(read, messages);
    assert!(read_json_line(0, "").is_err());
}

#[test]
fn values_are_read_as_they_were_written() {
    let first: serde_json::Value = serde_json::from_str(
        "{\"type\":\"spawn\",\"argv\":[\"a b\",\"\\n\"],\"env\":{\"X\":\"\u{e4}\"}}",
    )
    .unwrap();
    let second: serde_json::Value = serde_json::from_str("{\"type\":\"stdin\",\"data\":\"x\\r\\n \"}").unwrap();
    let mut stream = write_json_line(serde_json::to_vec(&first).unwrap());
    stream.extend(write_json_line(serde_json::to_vec(&second).unwrap()));
    let text = String::from_utf8(stream).unwrap();
    let read: Vec<serde_json::Value> = text
        .split_inclusive('\n')
        .map(|line| serde_json::from_str(&read_json_line(line.len(), line).unwrap()).unwrap())
        .collect();
    assert_eq!(read, vec![first, second]);
}

#[test]
fn nothing_read_means_that_the_stream_is_closed() {
    assert_eq!(read_json_line(0, ""), Err(StreamClosed));
    assert_eq!(StreamClosed.message(), "runner stream closed");
}

#[test]
fn lines_are_taken_one_by_one() {
    let mut buffer = b"one\r\ntwo\n\nthree".to_vec();
    assert_eq!(take_line(&mut buffer), Some(b"one".to_vec()));
    assert_eq!(take_line(&mut buffer), Some(b"two".to_vec()));
    assert_eq!(take_line(&mut buffer), Some(Vec::new()));
    assert_eq!(take_line(&mut buffer), None);
    assert_eq!(buffer, b"three".to_vec());
}

#[test]
fn chunks_are_collected() {
    let mut buffer = b"a".to_vec();
    assert!(read_pipe_chunk(&PipeRead::Bytes(b"bc".to_vec()), &mut buffer).is_ok());
    assert!(read_pipe_chunk(&PipeRead::WouldBlock, &mut buffer).is_ok());
    assert!(read_pipe_chunk(&PipeRead::Bytes(vec![]), &mut buffer).is_ok());
    assert_eq!(buffer, b"abc".to_vec());
    match read_pipe_chunk(&PipeRead::Failed, &mut buffer) {
        Err(failure) => assert_eq!(failure.message(), "failed to read runner keeper pipe"),
        Ok(()) => panic!("the pipe cannot be read"),
    }
}

#[test]
fn the_first_line_tells_that_the_keeper_is_ready() {
    let data = b"{\"messages\":[]}\nmore";
    for cut in 0..data.len() {
        let mut handshake = Handshake::new();
        let first = handshake.stdout_ready(&PipeRead::Bytes(data[..cut].to_vec()));
        let step = match first {
            HandshakeStep::Continue => handshake.stdout_ready(&PipeRead::Bytes(data[cut..].to_vec())),
            other => other,
        };
        match step {
            HandshakeStep::Ready(line) => assert_eq!(line, b"{\"messages\":[]}".to_vec()),
            _ => panic!("the keeper is ready"),
        }
    }
}

#[test]
fn output_goes_before_complaints() {
    let bytes = |text: &str| Some(PipeRead::Bytes(text.as_bytes().to_vec()));
    let mut handshake = Handshake::new();
    assert!(matches!(handshake.round(&None, &None), HandshakeStep::Continue));
    assert!(matches!(handshake.round(&bytes("rea"), &bytes("ba")), HandshakeStep::Continue));
    match handshake.round(&bytes("dy\n"), &bytes("d\n")) {
        HandshakeStep::Ready(line) => assert_eq!(line, b"ready".to_vec()),
        _ => panic!("the keeper is ready"),
    }
    assert_eq!(handshake.stderr, b"ba".to_vec());
    match handshake.round(&bytes("more"), &bytes("d\n")) {
        HandshakeStep::Failed(failure) => assert_eq!(failure.message(), "bad"),
        _ => panic!("the keeper has complained"),
    }
    match handshake.round(&Some(PipeRead::Failed), &bytes("worse\n")) {
        HandshakeStep::Failed(failure) => assert_eq!(failure.message(), "failed to read runner keeper pipe"),
        _ => panic!("the pipe cannot be read"),
    }
}

#[test]
fn a_complaint_fails_the_handshake() {
    let mut handshake = Handshake::new();
    assert!(matches!(handshake.stderr_ready(&PipeRead::Bytes(b" \n".to_vec())), HandshakeStep::Continue));
    assert!(matches!(handshake.stderr_ready(&PipeRead::Bytes(b"  no".to_vec())), HandshakeStep::Continue));
    match handshake.stderr_ready(&PipeRead::Bytes(b" root \xff\nrest".to_vec())) {
        HandshakeStep::Failed(failure) => assert_eq!(failure.message(), "no root \u{fffd}"),
        _ => panic!("the keeper has complained"),
    }
    assert!(matches!(handshake.stdout_ready(&PipeRead::Failed), HandshakeStep::Failed(KeeperFailure::PipeUnreadable)));
    assert!(matches!(handshake.stderr_ready(&PipeRead::Failed), HandshakeStep::Failed(KeeperFailure::PipeUnreadable)));
}

#[test]
fn a_keeper_that_ends_early() {
    let mut handshake = Handshake::new();
    match handshake.keeper_exited(&b"ready\n".to_vec(), &b"warning\n".to_vec(), "exit status: 0") {
        HandshakeStep::Ready(line) => assert_eq!(line, b"ready".to_vec()),
        _ => panic!("the keeper was ready"),
    }
    let mut handshake = Handshake::new();
    assert!(matches!(handshake.stdout_ready(&PipeRead::Bytes(b"half".to_vec())), HandshakeStep::Continue));
    match handshake.keeper_exited(&vec![], &b" bad\nworse ".to_vec(), "exit status: 1") {
        HandshakeStep::Failed(failure) => assert_eq!(failure.message(), "bad\nworse"),
        _ => panic!("the keeper has failed"),
    }
    let mut handshake = Handshake::new();
    match handshake.keeper_exited(&vec![], &vec![], "exit status: 1") {
        HandshakeStep::Failed(failure) => {
            assert_eq!(failure.message(), "runner keeper exited before handshake with status exit status: 1")
        }
        _ => panic!("the keeper has failed"),
    }
}

#[test]
fn texts_of_failures() {
    let cases = [
        (KeeperFailure::MissingSocketPath, "missing socket path for runner keeper"),
        (KeeperFailure::SpawnFailed, "failed to spawn runner keeper"),
        (KeeperFailure::NoStdout, "runner keeper stdout pipe was not available"),
        (KeeperFailure::NoStderr, "runner keeper stderr pipe was not available"),
        (KeeperFailure::PollFailed, "failed to poll runner keeper pipes"),
        (KeeperFailure::ProcessUnknown, "failed to poll runner keeper process"),
        (KeeperFailure::BindFailed { socket_path: path("/s") }, "failed to bind runner keeper socket /s"),
        (KeeperFailure::ParentSignal, "failed to set parent death signal"),
        (KeeperFailure::ChildUnknown, "failed to wait for runner keeper child"),
    ];
    for (failure, text) in cases {
        assert_eq!(failure.message(), text);
    }
    assert_eq!(fatal_line("no"), b"no\n".to_vec());
}

#[test]
fn how_the_keeper_has_ended() {
    assert_eq!(keeper_child_result(&WaitOutcome::Exited(0)), Ok(()));
    assert_eq!(
        keeper_child_result(&WaitOutcome::Exited(-3)),
        Err("runner keeper child exited with status -3".to_string())
    );
    assert_eq!(
        keeper_child_result(&WaitOutcome::Signaled("SIGKILL".to_string())),
        Err("runner keeper child terminated by signal SIGKILL".to_string())
    );
    assert_eq!(
        keeper_child_result(&WaitOutcome::Other("StillAlive".to_string())),
        Err("runner keeper child ended unexpectedly: StillAlive".to_string())
    );
}

#[test]
fn the_first_message_has_to_ask_for_a_process() {
    let argv = vec!["chroot".to_string(), "/r".to_string()];
    match first_request(ClientMessage::Spawn { argv, env: NameMap::new() }) {
        FirstRequest::Start { argv, .. } => assert_eq!(argv, vec!["chroot", "/r"]),
        FirstRequest::Reject(_) => panic!("the request is good"),
    }
    match first_request(ClientMessage::Spawn { argv: vec![], env: NameMap::new() }) {
        FirstRequest::Reject(frame) => assert_eq!(error_of(&frame), "spawn argv is empty"),
        FirstRequest::Start { .. } => panic!("there is nothing to start"),
    }
    match first_request(ClientMessage::Stop) {
        FirstRequest::Reject(frame) => assert_eq!(error_of(&frame), "first runner message must be spawn"),
        FirstRequest::Start { .. } => panic!("there is nothing to start"),
    }
}

#[test]
fn what_comes_of_starting_a_process() {
    let argv = vec!["chroot".to_string(), "/r".to_string()];
    match spawn_finished(&argv, &SpawnOutcome::Running(12)) {
        SpawnAction::Serve { frame, pid } => {
            assert_eq!(pid, 12);
            assert!(matches!(frame, KeeperFrame::KeeperMessage { message: KeeperMessage::ChildSpawned }));
        }
        _ => panic!("the process runs"),
    }
    match spawn_finished(&argv, &SpawnOutcome::Refused("not found".to_string())) {
        SpawnAction::Report(frame) => assert_eq!(error_of(&frame), "failed to spawn chroot /r: not found"),
        _ => panic!("the process does not run"),
    }
    match spawn_finished(&argv, &SpawnOutcome::Running(u32::MAX)) {
        SpawnAction::Abandon(text) => assert_eq!(text, "child pid overflowed i32"),
        _ => panic!("the number is too large"),
    }
    assert!(matches!(exit_frame(), KeeperFrame::KeeperMessage { message: KeeperMessage::ChildExited }));
}

fn sent(action: ClientAction) -> KeeperFrame {
    match action {
        ClientAction::Send(frame) => frame,
        _ => panic!("a frame was expected"),
    }
}

#[test]
fn the_course_of_a_client() {
    let request = || ClientMessage::Spawn { argv: vec!["run".to_string()], env: NameMap::new() };
    let mut client = ClientState::Waiting;
    assert!(matches!(client.step(ClientEvent::Exited), ClientAction::Nothing));
    match client.step(ClientEvent::Request(request())) {
        ClientAction::Spawn { argv, .. } => assert_eq!(argv, vec!["run"]),
        _ => panic!("a process is to be started"),
    }
    assert!(matches!(client.step(ClientEvent::Request(request())), ClientAction::Nothing));
    let frame = sent(client.step(ClientEvent::Spawned(SpawnOutcome::Running(7))));
    assert!(matches!(frame, KeeperFrame::KeeperMessage { message: KeeperMessage::ChildSpawned }));
    assert!(matches!(client, ClientState::Serving { pid: 7 }));
    let frame = sent(client.step(ClientEvent::Exited));
    assert!(matches!(frame, KeeperFrame::KeeperMessage { message: KeeperMessage::ChildExited }));
    assert!(matches!(client.step(ClientEvent::Exited), ClientAction::Nothing));
    assert!(matches!(client, ClientState::Done));
}

#[test]
fn a_client_that_is_refused_is_told_nothing_more() {
    let mut client = ClientState::Waiting;
    let frame = sent(client.step(ClientEvent::Request(ClientMessage::Stop)));
    assert_eq!(error_of(&frame), "first runner message must be spawn");
    assert!(matches!(client.step(ClientEvent::Exited), ClientAction::Nothing));
    let mut client = ClientState::Starting { argv: vec!["run".to_string(), "it".to_string()] };
    let frame = sent(client.step(ClientEvent::Spawned(SpawnOutcome::Refused("no".to_string()))));
    assert_eq!(error_of(&frame), "failed to spawn run it: no");
    assert!(matches!(client, ClientState::Done));
    let mut client = ClientState::Starting { argv: vec![] };
    match client.step(ClientEvent::Spawned(SpawnOutcome::Running(u32::MAX))) {
        ClientAction::Abandon(text) => assert_eq!(text, "child pid overflowed i32"),
        _ => panic!("the number is too large"),
    }
    assert!(matches!(client, ClientState::Done));
}

#[test]
fn commands_while_the_process_runs() {
    let spawn = ClientMessage::Spawn { argv: vec![], env: NameMap::new() };
    assert!(matches!(client_command(&spawn, 5), CommandAction::Ignore));
    match client_command(&ClientMessage::input_line("h\u{e9}"), 5) {
        CommandAction::Write(data) => assert_eq!(data, "h\u{e9}\n".as_bytes().to_vec()),
        _ => panic!("the line goes to the process"),
    }
    assert!(matches!(client_command(&ClientMessage::Stop, 5), CommandAction::Terminate(-5)));
}

#[test]
fn output_is_relayed_until_it_ends() {
    match relay_output(OutputStream::Stdout, Some(vec![1])) {
        Some(KeeperFrame::KeeperMessage { message: KeeperMessage::ChildStdout { data } }) => assert_eq!(data, vec![1]),
        _ => panic!("output was expected"),
    }
    match relay_output(OutputStream::Stderr, Some(vec![2])) {
        Some(KeeperFrame::KeeperMessage { message: KeeperMessage::ChildStderr { data } }) => assert_eq!(data, vec![2]),
        _ => panic!("output was expected"),
    }
    assert!(relay_output(OutputStream::Stdout, Some(vec![])).is_none());
    assert!(relay_output(OutputStream::Stdout, None).is_none());
}

#[test]
fn where_the_keeper_is_looked_for() {
    assert_eq!(search_text(&facts()), "/opt/app/libexec/model-assistant:/usr/bin:/bin");
    assert_eq!(
        search_text(&HostFacts { debug_build: true, ..facts() }),
        "/opt/app/bin:/opt/app/libexec/model-assistant:/usr/bin:/bin"
    );
    assert_eq!(search_text(&HostFacts { path_var: None, ..facts() }), "/opt/app/libexec/model-assistant");
    assert_eq!(
        search_text(&HostFacts { path_var: Some(vec![]), ..facts() }),
        "/opt/app/libexec/model-assistant:"
    );
}

#[test]
fn where_the_keeper_cannot_be_looked_for() {
    let unknown = HostFacts { current_exe: Err("gone".to_string()), ..facts() };
    assert_eq!(search_text(&unknown), "error: gone");
    let bare = HostFacts { current_exe: Ok(path("/")), ..facts() };
    assert_eq!(search_text(&bare), "error: current executable has no parent directory");
    let top = HostFacts { current_exe: Ok(path("/program")), ..facts() };
    assert_eq!(search_text(&top), "error: current executable has no install prefix parent");
    let odd = HostFacts { current_exe: Ok(path("/a:b/bin/program")), ..facts() };
    assert_eq!(search_text(&odd), "error: path segment contains separator `:`");
    let beside = HostFacts { current_exe: Ok(path("/a/b:c/program")), ..facts() };
    assert_eq!(search_text(&beside), "/a/libexec/model-assistant:/usr/bin:/bin");
    let beside = HostFacts { current_exe: Ok(path("/a/b:c/program")), debug_build: true, ..facts() };
    assert_eq!(search_text(&beside), "error: path segment contains separator `:`");
}

#[test]
fn the_socket_of_the_keeper() {
    assert_eq!(keeper_socket(&facts()).display(), "/run/user/1000/model-assistant-runner-4711.sock");
    assert_eq!(
        keeper_socket(&HostFacts { runtime_dir: None, ..facts() }).display(),
        "/tmp/model-assistant-runner-4711.sock"
    );
}

#[test]
fn the_life_of_a_keeper() {
    let mut env = NameMap::new();
    env.insert_text("A", "1");
    let mut manager = RunnerManager::new(paths(), env);
    assert_eq!(manager.runner_env().get("A").unwrap(), "1");
    assert!(matches!(manager.keeper_socket_path(), Err(KeeperMissing)));
    assert_eq!(KeeperMissing.message(), "runner keeper is not initialized");
    assert!(manager.cleanup().is_none());
    match manager.initialize(&facts()) {
        InitializeStep::Start(launch) => {
            assert_eq!(launch.program, "runner-keeper");
            assert_eq!(launch.helper_path, b"/opt/app/libexec/model-assistant:/usr/bin:/bin".to_vec());
            assert_eq!(launch.models_root.display(), "/m");
            assert_eq!(launch.socket_path.display(), "/run/user/1000/model-assistant-runner-4711.sock");
        }
        InitializeStep::Done(_) => panic!("a keeper has to be started"),
    }
    match manager.keeper_started(Err("refused".to_string())) {
        RunnerInitialization::Fatal(text) => assert_eq!(text, "failed to start runner keeper: refused"),
        RunnerInitialization::Ready(_) => panic!("nothing was started"),
    }
    let mut warnings = RunnerWarnings::new();
    warnings.push("slow".to_string());
    let handle = KeeperHandle { pid: 99, socket_path: path("/s"), warnings };
    match manager.keeper_started(Ok(handle)) {
        RunnerInitialization::Ready(warnings) => assert_eq!(warnings.body(), "slow"),
        RunnerInitialization::Fatal(_) => panic!("the keeper runs"),
    }
    assert_eq!(manager.keeper_socket_path().unwrap().display(), "/s");
    match manager.initialize(&facts()) {
        InitializeStep::Done(RunnerInitialization::Ready(warnings)) => assert!(warnings.is_empty()),
        _ => panic!("there is a keeper"),
    }
    let cleanup = manager.cleanup().unwrap();
    assert_eq!(cleanup.terminate, Some(99));
    assert_eq!(cleanup.socket_path.display(), "/s");
    assert!(manager.cleanup().is_none());
    let far = KeeperHandle { pid: u32::MAX, socket_path: path("/s"), warnings: RunnerWarnings::new() };
    manager.keeper_started(Ok(far));
    assert_eq!(manager.cleanup().unwrap().terminate, None);
}

#[test]
fn a_missing_search_path_is_fatal() {
    let manager = RunnerManager::new(paths(), NameMap::new());
    match manager.initialize(&HostFacts { current_exe: Ok(path("/")), ..facts() }) {
        InitializeStep::Done(RunnerInitialization::Fatal(text)) => assert_eq!(
            text,
            "failed to resolve runner keeper search path: current executable has no parent directory"
        ),
        _ => panic!("there is no search path"),
    }
}

#[test]
fn what_is_written_for_a_user_namespace() {
    let writes: Vec<(String, String)> =
        namespace_writes(1000, 100).iter().map(|write| (write.path.to_string(), write.contents.clone())).collect();
    assert_eq!(
        writes,
        vec![
            ("/proc/self/setgroups".to_string(), "deny\n".to_string()),
            ("/proc/self/uid_map".to_string(), "0 1000 1\n".to_string()),
            ("/proc/self/gid_map".to_string(), "0 100 1\n".to_string()),
        ]
    );
    assert_eq!(namespace_writes(0, 0).len(), 2);
    assert_eq!(NamespaceFailure::User.message(), "unshare(CLONE_NEWUSER) failed");
    assert_eq!(
        NamespaceFailure::Write { path: "/proc/self/uid_map" }.message(),
        "failed to write /proc/self/uid_map"
    );
    assert_eq!(NamespaceFailure::MountAndProcess.message(), "unshare(CLONE_NEWNS | CLONE_NEWPID) failed");
    assert_eq!(NamespaceFailure::Fork.message(), "fork() failed after entering runner namespaces");
}

fn list(items: &[&str]) -> Vec<String> {
    items.iter().map(|item| item.to_string()).collect()
}

fn entry(uid: u32, gid: u32, failing: usize) -> (Vec<String>, Option<String>) {
    let mut entry = enter_keeper_context(uid, gid);
    let mut taken = Vec::new();
    while let Some(step) = entry.next_step() {
        taken.push(match step {
            NamespaceStep::UnshareUser => "user".to_string(),
            NamespaceStep::Write(write) => format!("{} {}", write.path, write.contents.trim_end()),
            NamespaceStep::UnshareMountAndProcess => "mount and process".to_string(),
            NamespaceStep::Fork => "fork".to_string(),
        });
        let succeeded = taken.len() != failing + 1;
        if let Err(failure) = entry.step_ended(succeeded) {
            assert!(entry.next_step().is_none());
            return (taken, Some(failure.message()));
        }
    }
    assert!(entry.step_ended(false).is_ok());
    (taken, None)
}

#[test]
fn the_fork_is_the_last_step_into_the_namespaces() {
    let all = [
        "user",
        "/proc/self/setgroups deny",
        "/proc/self/uid_map 0 1000 1",
        "/proc/self/gid_map 0 100 1",
        "mount and process",
        "fork",
    ];
    assert_eq!(entry(1000, 100, 9), (list(&all), None));
    assert_eq!(
        entry(0, 7, 9).0,
        list(&["user", "/proc/self/uid_map 0 0 1", "/proc/self/gid_map 0 7 1", "mount and process", "fork"])
    );
}

#[test]
fn a_failure_ends_the_way_into_the_namespaces() {
    let messages = [
        "unshare(CLONE_NEWUSER) failed",
        "failed to write /proc/self/setgroups",
        "failed to write /proc/self/uid_map",
        "failed to write /proc/self/gid_map",
        "unshare(CLONE_NEWNS | CLONE_NEWPID) failed",
        "fork() failed after entering runner namespaces",
    ];
    let (all, _) = entry(1000, 100, 9);
    for (failing, message) in messages.iter().enumerate() {
        let (taken, failure) = entry(1000, 100, failing);
        assert_eq!(taken, all[..failing + 1].to_vec());
        assert_eq!(failure, Some(message.to_string()));
        assert_eq!(taken.contains(&"fork".to_string()), failing == 5);
    }
}

#[test]
fn the_steps_of_a_plain_system() {
    let runtime = KeeperRuntime::new(paths());
    let steps: Vec<String> = runtime.steps(&devices()).iter().map(shown).collect();
    let mut expected = vec!["private", "dir /m/Runner/proc", "mount proc /m/Runner/proc"];
    let device_steps: Vec<String> = ["null", "zero", "full", "random", "urandom"]
        .iter()
        .flat_map(|device| {
            vec![
                "dir /m/Runner/dev".to_string(),
                format!("file /m/Runner/dev/{device}"),
                format!("bind /dev/{device} /m/Runner/dev/{device} false"),
            ]
        })
        .collect();
    expected.extend(device_steps.iter().map(|step| step.as_str()));
    expected.extend([
        "dir /m/Runner/dev/pts",
        "mount devpts /m/Runner/dev/pts",
        "dir /m/Runner/dev/shm",
        "mount tmpfs /m/Runner/dev/shm",
        "dir /m/Runner/tmp",
        "mount tmpfs /m/Runner/tmp",
        "dir /m/Runner/mnt",
        "bind /m/Files /m/Runner/mnt true",
        "dir /m/Runner/root",
        "bind /home/user /m/Runner/root true",
    ]);
    assert_eq!(steps, expected);
}

#[test]
fn the_steps_for_accelerators() {
    let runtime = KeeperRuntime::new(paths());
    let entries = vec![
        DeviceEntry { name: path("nvidia0"), is_dir: false },
        DeviceEntry { name: path("sda"), is_dir: false },
        DeviceEntry { name: path("nvidia-caps"), is_dir: true },
        DeviceEntry { name: path("nvidiactl"), is_dir: false },
    ];
    let host = HostDevices { has_kfd: true, has_dri: true, has_accel: true, entries, ..devices() };
    let plain = runtime.steps(&devices()).len();
    let steps: Vec<String> = runtime.steps(&host).iter().map(shown).collect();
    assert_eq!(steps.len(), plain + 3 + 2 + 2 + 3 + 3);
    let from = steps.iter().position(|step| step == "file /m/Runner/dev/kfd").unwrap() - 1;
    assert_eq!(
        steps[from..from + 13],
        [
            "dir /m/Runner/dev",
            "file /m/Runner/dev/kfd",
            "bind /dev/kfd /m/Runner/dev/kfd false",
            "dir /m/Runner/dev/dri",
            "bind /dev/dri /m/Runner/dev/dri true",
            "dir /m/Runner/dev/accel",
            "bind /dev/accel /m/Runner/dev/accel true",
            "dir /m/Runner/dev",
            "file /m/Runner/dev/nvidia0",
            "bind /dev/nvidia0 /m/Runner/dev/nvidia0 false",
            "dir /m/Runner/dev",
            "file /m/Runner/dev/nvidiactl",
            "bind /dev/nvidiactl /m/Runner/dev/nvidiactl false",
        ]
    );
    assert!(is_wanted_device("nvidia0", false));
    assert!(!is_wanted_device("nvidia0", true));
    assert!(!is_wanted_device("mynvidia", false));
}

#[test]
fn a_home_that_is_missing() {
    let runtime = KeeperRuntime::new(paths());
    let steps = runtime.steps(&HostDevices { home: None, ..devices() });
    assert_eq!(shown(steps.last().unwrap()), "note HOME environment variable is not set");
    let steps = runtime.steps(&HostDevices { home_is_dir: false, ..devices() });
    assert_eq!(shown(steps.last().unwrap()), "note HOME does not point to a directory: /home/user");
}

#[test]
fn outcomes_become_warnings_and_mounts() {
    let mut runtime = KeeperRuntime::new(paths());
    let host = HostDevices { home: None, ..devices() };
    let steps = runtime.steps(&host);
    let mut outcomes: Vec<Option<String>> = steps.iter().map(|_| None).collect();
    outcomes[0] = Some("EPERM".to_string());
    outcomes[1] = Some("EROFS".to_string());
    outcomes[2] = Some("EINVAL".to_string());
    outcomes[4] = Some("ENOENT".to_string());
    outcomes[5] = Some("EACCES".to_string());
    let warnings = runtime.initialize(&host, &outcomes);
    assert_eq!(
        warnings.messages,
        vec![
            "failed to make mounts private: EPERM",
            "failed to create directory /m/Runner/proc: EROFS",
            "failed to mount proc at /m/Runner/proc: EINVAL",
            "failed to create file target /m/Runner/dev/null: ENOENT",
            "failed to bind /dev/null -> /m/Runner/dev/null: EACCES",
            "HOME environment variable is not set",
        ]
    );
    let mut undone = vec![];
    while let Some(target) = runtime.next_unmount() {
        undone.push(target.display());
    }
    assert_eq!(
        undone,
        vec![
            "/m/Runner/mnt",
            "/m/Runner/tmp",
            "/m/Runner/dev/shm",
            "/m/Runner/dev/pts",
            "/m/Runner/dev/urandom",
            "/m/Runner/dev/random",
            "/m/Runner/dev/full",
            "/m/Runner/dev/zero",
        ]
    );
    assert!(runtime.next_unmount().is_none());
}

#[test]
fn a_setup_without_trouble_has_no_warnings() {
    let mut runtime = KeeperRuntime::new(paths());
    let host = devices();
    let outcomes: Vec<Option<String>> = runtime.steps(&host).iter().map(|_| None).collect();
    assert!(runtime.initialize(&host, &outcomes).is_empty());
    let mut count = 0;
    while let Some(target) = runtime.next_unmount() {
        assert!(target.display().starts_with("/m/Runner/"));
        count += 1;
    }
    assert_eq!(count, 11);
}

#[test]
fn a_failed_unmount_is_followed_by_a_lazy_one() {
    let mut runtime = KeeperRuntime::new(paths());
    let host = devices();
    let outcomes: Vec<Option<String>> = runtime.steps(&host).iter().map(|_| None).collect();
    runtime.initialize(&host, &outcomes);
    let mut outcome = UnmountOutcome::Begun;
    let mut done = vec![];
    loop {
        outcome = match runtime.unmount(outcome) {
            UnmountAction::Plain(target) => {
                done.push(format!("plain {}", target.display()));
                UnmountOutcome::Plain { failed: done.len() == 2, target }
            }
            UnmountAction::Lazy(target) => {
                done.push(format!("lazy {}", target.display()));
                UnmountOutcome::Lazy
            }
            UnmountAction::Finished => break,
        };
    }
    assert_eq!(done.len(), 12);
    assert_eq!(
        done[..4],
        [
            "plain /m/Runner/root",
            "plain /m/Runner/mnt",
            "lazy /m/Runner/mnt",
            "plain /m/Runner/tmp",
        ]
    );
    assert_eq!(done[11], "plain /m/Runner/proc");
    assert!(runtime.next_unmount().is_none());
}

#[test]
fn file_systems_of_the_kernel() {
    assert_eq!(KernelFs::Proc.options(), None);
    assert_eq!(KernelFs::Devpts.options(), Some("newinstance,ptmxmode=0666,mode=0620"));
    assert_eq!(KernelFs::Tmpfs.options(), Some("size=8G"));
}

#[test]
fn how_things_are_mounted() {
    let none = MountFlags {
        private: false,
        bind: false,
        recursive: false,
        no_suid: false,
        no_exec: false,
        no_devices: false,
    };
    let mounted = |fs| MountStep::MountFs { fs, target: path("/t") }.flags();
    let bound = |tree| MountStep::Bind { source: path("/s"), target: path("/t"), tree }.flags();
    assert_eq!(MountStep::MakePrivate.flags(), MountFlags { private: true, recursive: true, ..none });
    assert_eq!(
        mounted(KernelFs::Proc),
        MountFlags { no_suid: true, no_exec: true, no_devices: true, ..none }
    );
    assert_eq!(mounted(KernelFs::Devpts), MountFlags { no_suid: true, no_exec: true, ..none });
    assert_eq!(mounted(KernelFs::Tmpfs), MountFlags { no_suid: true, no_devices: true, ..none });
    assert_eq!(bound(false), MountFlags { bind: true, ..none });
    assert_eq!(bound(true), MountFlags { bind: true, recursive: true, ..none });
    assert_eq!(MountStep::EnsureDir { path: path("/t") }.flags(), none);
}
