use model_assistant::config::{
    fallback_model_arg, AppConfig, BindError, ConfigRead, ModeConfig, ModelConfig, ModelModeOverride,
    ModelRuntimeConfig, RunnerConfig, RuntimeConfig,
};
use model_assistant::ipc::{ClientMessage, KeeperFrame, KeeperMessage, KeeperStatus};
use model_assistant::launch::{
    base_child_env, connect_failure, forwarded, spawn_reply, LaunchPlan, ProcessEvent, SpawnReply,
};
use model_assistant::manager::RunnerManager;
use model_assistant::names::NameMap;
use model_assistant::paths::ResolvedPaths;
use model_assistant::unix_path::UnixPath;

fn list(items: &[&str]) -> Vec<String> {
    items.iter().map(|item| item.to_string()).collect()
}

fn env(items: &[(&str, &str)]) -> NameMap<String> {
    let mut map = NameMap::new();
    for (name, value) in items {
        map.insert_text(name, value);
    }
    map
}

fn mode(executable: &str, interactive: bool, args: &[&str]) -> ModeConfig {
    ModeConfig { executable: executable.to_string(), interactive, args: list(args) }
}

fn runtime() -> RuntimeConfig {
    let mut modes = NameMap::new();
    modes.insert("chat".to_string(), mode("/usr/bin/chat", true, &["--color"]));
    modes.insert("serve".to_string(), mode("/usr/bin/serve", false, &[]));
    RuntimeConfig { model_arg: fallback_model_arg(), modes }
}

fn mapping() -> ModelRuntimeConfig {
    let mut modes = NameMap::new();
    modes.insert(
        "chat".to_string(),
        ModelModeOverride { args: list(&["--ctx", "4096"]), env: env(&[("LEVEL", "mode")]) },
    );
    ModelRuntimeConfig {
        default_mode: "chat".to_string(),
        env: env(&[("LEVEL", "runtime"), ("GPU", "1")]),
        args: list(&["--fast"]),
        modes,
    }
}

fn model(title: &str, file: &str) -> ModelConfig {
    let mut runtimes = NameMap::new();
    runtimes.insert("llama".to_string(), mapping());
    ModelConfig {
        title: title.to_string(),
        file: file.to_string(),
        default_runtime: "llama".to_string(),
        runtimes,
    }
}

fn config() -> AppConfig {
    let mut runtimes = NameMap::new();
    runtimes.insert("llama".to_string(), runtime());
    let mut models = NameMap::new();
    models.insert("tiny".to_string(), model("Tiny", "tiny.gguf"));
    models.insert("big".to_string(), model("Big", "big.gguf"));
    AppConfig {
        config_version: 1,
        runner: RunnerConfig { env: env(&[("LEVEL", "runner"), ("HOME", "/work")]) },
        runtimes,
        models,
    }
}

fn paths() -> ResolvedPaths {
    ResolvedPaths::discover(Some(UnixPath::from_text("/m"))).unwrap()
}

fn errors(config: &AppConfig) -> Vec<String> {
    let there = vec![true; config.models.len()];
    config.validate(&paths(), &there).errors
}

#[test]
fn a_good_configuration_has_no_errors() {
    assert_eq!(errors(&config()), Vec::<String>::new());
}

#[test]
fn the_version_has_to_be_known() {
    let newer = AppConfig { config_version: 27, ..config() };
    assert_eq!(errors(&newer), list(&["unsupported config_version 27, expected 1"]));
}

#[test]
fn an_empty_configuration_is_refused() {
    let empty = AppConfig { runtimes: NameMap::new(), models: NameMap::new(), ..config() };
    assert_eq!(
        errors(&empty),
        list(&["config must declare at least one runtime", "config must declare at least one model"])
    );
}

#[test]
fn errors_of_a_runtime() {
    let mut broken = config();
    let mut modes = NameMap::new();
    modes.insert("blank".to_string(), mode(" \t", false, &[]));
    broken.runtimes.insert("bad".to_string(), RuntimeConfig { model_arg: "model".to_string(), modes });
    broken.runtimes.insert(
        "none".to_string(),
        RuntimeConfig { model_arg: "-m".to_string(), modes: NameMap::new() },
    );
    assert_eq!(
        errors(&broken),
        list(&[
            "runtime `bad` has invalid model_arg `model`",
            "runtime `bad` mode `blank` must define a non-empty executable",
            "runtime `none` must declare at least one mode",
        ])
    );
}

#[test]
fn errors_of_a_model() {
    let mut broken = config();
    broken.models.insert(
        "copy".to_string(),
        ModelConfig {
            title: "Big".to_string(),
            file: "/abs/copy.gguf".to_string(),
            default_runtime: "none".to_string(),
            runtimes: NameMap::new(),
        },
    );
    broken.models.insert("untitled".to_string(), model("  ", "u.gguf"));
    let there = vec![true, false, true, true];
    assert_eq!(
        broken.validate(&paths(), &there).errors,
        list(&[
            "duplicate model title `Big`",
            "model `copy` must declare at least one runtime mapping",
            "model `copy` file is missing: /abs/copy.gguf",
            "model `copy` references unknown default runtime `none` in its runtime mappings",
            "model `untitled` must define a title",
        ])
    );
    let files: Vec<String> = broken.model_files(&paths()).iter().map(|file| file.display()).collect();
    assert_eq!(
        files,
        list(&["/m/Files/big.gguf", "/abs/copy.gguf", "/m/Files/tiny.gguf", "/m/Files/u.gguf"])
    );
}

#[test]
fn errors_of_a_mapping() {
    let mut broken = config();
    let mut runtimes = NameMap::new();
    let mut odd = mapping();
    odd.default_mode = "train".to_string();
    odd.modes.insert("sing".to_string(), ModelModeOverride { args: vec![], env: NameMap::new() });
    runtimes.insert("llama".to_string(), odd);
    runtimes.insert("vllm".to_string(), mapping());
    broken.models.insert(
        "tiny".to_string(),
        ModelConfig {
            title: "Tiny".to_string(),
            file: "tiny.gguf".to_string(),
            default_runtime: "llama".to_string(),
            runtimes,
        },
    );
    assert_eq!(
        errors(&broken),
        list(&[
            "model `tiny` references unknown default mode `train` for runtime `llama`",
            "model `tiny` references unknown mode override `sing` for runtime `llama`",
            "model `tiny` references unknown runtime `vllm`",
        ])
    );
}

#[test]
fn a_valid_configuration_runs_every_model() {
    let config = config();
    for i in 0..config.models.len() {
        let model = config.models.value_at(i);
        let id = config.models.name_at(i);
        let runtime_name = model.default_runtime_name();
        let binding = config.bind_runtime(id, model, &runtime_name).unwrap_or_else(|_| panic!("{id}"));
        let mode_name = binding.default_mode_name();
        assert_eq!(mode_name, "chat");
        assert!(config.bind_mode(id, model, &runtime_name, &mode_name).is_ok());
    }
}

#[test]
fn names_and_defaults() {
    let config = config();
    let tiny = config.models.get("tiny").unwrap();
    assert_eq!(tiny.runtime_names(), list(&["llama"]));
    let other = ModelConfig { default_runtime: "gone".to_string(), ..model("T", "t") };
    assert_eq!(other.default_runtime_name(), "llama");
    let none = ModelConfig { runtimes: NameMap::new(), ..model("T", "t") };
    assert_eq!(none.default_runtime_name(), "");
    let binding = config.bind_runtime("tiny", tiny, "llama").unwrap_or_else(|_| panic!("bound"));
    assert_eq!(binding.runtime_name, "llama");
    assert_eq!(binding.mode_names(), list(&["chat", "serve"]));
}

#[test]
fn what_cannot_be_bound() {
    let config = config();
    let tiny = config.models.get("tiny").unwrap();
    match config.bind_runtime("tiny", tiny, "vllm") {
        Err(error) => {
            assert!(matches!(error, BindError::NoMapping { .. }));
            assert_eq!(error.message(), "model `tiny` has no runtime mapping `vllm`");
        }
        Ok(_) => panic!("there is no mapping"),
    }
    let mut odd = model("Odd", "odd.gguf");
    odd.runtimes.insert("vllm".to_string(), mapping());
    match config.bind_runtime("odd", &odd, "vllm") {
        Err(error) => assert_eq!(error.message(), "unknown runtime `vllm`"),
        Ok(_) => panic!("there is no such runtime"),
    }
    match config.bind_mode("tiny", tiny, "llama", "train") {
        Err(error) => assert_eq!(error.message(), "unknown mode `train` for runtime `llama`"),
        Ok(_) => panic!("there is no such mode"),
    }
}

#[test]
fn what_a_binding_holds() {
    let config = config();
    let tiny = config.models.get("tiny").unwrap();
    let chat = config.bind_mode("tiny", tiny, "llama", "chat").unwrap_or_else(|_| panic!("bound"));
    assert!(chat.interactive());
    assert_eq!(chat.executable(), "/usr/bin/chat");
    assert_eq!(chat.mode_args(), &list(&["--color"]));
    assert_eq!(chat.runtime_args(), &list(&["--fast"]));
    assert_eq!(chat.model_arg(), "--model");
    assert_eq!(chat.runtime_env().get("GPU").unwrap(), "1");
    assert_eq!(chat.mode_override().unwrap().args, list(&["--ctx", "4096"]));
    let serve = config.bind_mode("tiny", tiny, "llama", "serve").unwrap_or_else(|_| panic!("bound"));
    assert!(!serve.interactive());
    assert!(serve.mode_override().is_none());
}

#[test]
fn clones_and_defaults() {
    let copy = config().clone();
    assert_eq!(errors(&copy), Vec::<String>::new());
    assert_eq!(copy.models.get("tiny").unwrap().title, "Tiny");
    let changes = ModelModeOverride::default();
    assert!(changes.args.is_empty() && changes.env.is_empty());
    let event = ProcessEvent::child(KeeperMessage::child_stdout(vec![1])).clone();
    assert_eq!(event.child_output(), Some(&[1u8][..]));
}

#[test]
fn what_comes_of_reading_the_file() {
    match AppConfig::load(&paths(), ConfigRead::Unreadable) {
        Err(error) => assert_eq!(error.message(), "failed to read config file at /m/Files/assistant.toml"),
        Ok(_) => panic!("nothing was read"),
    }
    match AppConfig::load(&paths(), ConfigRead::Invalid) {
        Err(error) => assert_eq!(error.message(), "failed to parse config file"),
        Ok(_) => panic!("nothing was read"),
    }
    assert!(AppConfig::load(&paths(), ConfigRead::Parsed(config())).is_ok());
}

#[test]
fn every_process_has_the_base_environment() {
    let env = base_child_env();
    assert_eq!(env.name_list(), list(&["HOME", "LANG", "LOGNAME", "PATH", "USER"]));
    assert_eq!(
        env.get("PATH").unwrap(),
        "/usr/local/sbin:/usr/local/bin:/usr/sbin:/usr/bin:/sbin:/bin"
    );
    assert_eq!(env.get("LANG").unwrap(), "C.UTF-8");
}

#[test]
fn a_plan_puts_everything_together() {
    let config = config();
    let tiny = config.models.get("tiny").unwrap();
    let runner = RunnerManager::new(paths(), config.runner.env.duplicate());
    let plan = LaunchPlan::build(&config, "tiny", tiny, "llama", "chat", &paths(), &runner)
        .unwrap_or_else(|_| panic!("planned"));
    assert!(plan.interactive);
    assert_eq!(
        plan.command,
        list(&[
            "chroot", "/m/Runner", "/usr/bin/chat", "--color", "--fast", "--model", "/mnt/tiny.gguf", "--ctx",
            "4096",
        ])
    );
    assert_eq!(
        plan.command_preview,
        "[tiny/llama/chat] /usr/bin/chat --color --fast --model /mnt/tiny.gguf --ctx 4096"
    );
    assert_eq!(plan.env.get("LEVEL").unwrap(), "mode");
    assert_eq!(plan.env.get("GPU").unwrap(), "1");
    assert_eq!(plan.env.get("HOME").unwrap(), "/work");
    assert_eq!(plan.env.get("USER").unwrap(), "root");
    match plan.into_request() {
        ClientMessage::Spawn { argv, env } => {
            assert_eq!(argv[0], "chroot");
            assert_eq!(env.get("GPU").unwrap(), "1");
        }
        _ => panic!("a request to spawn was expected"),
    }
}

#[test]
fn a_mode_without_changes_keeps_the_settings_of_the_runtime() {
    let config = config();
    let tiny = config.models.get("tiny").unwrap();
    let runner = RunnerManager::new(paths(), config.runner.env.duplicate());
    let plan = LaunchPlan::build(&config, "tiny", tiny, "llama", "serve", &paths(), &runner)
        .unwrap_or_else(|_| panic!("planned"));
    assert!(!plan.interactive);
    assert_eq!(plan.env.get("LEVEL").unwrap(), "runtime");
    assert_eq!(
        plan.command,
        list(&["chroot", "/m/Runner", "/usr/bin/serve", "--fast", "--model", "/mnt/tiny.gguf"])
    );
    match LaunchPlan::build(&config, "tiny", tiny, "vllm", "serve", &paths(), &runner) {
        Err(error) => assert_eq!(error.message(), "model `tiny` has no runtime mapping `vllm`"),
        Ok(_) => panic!("there is no mapping"),
    }
}

#[test]
fn what_events_tell() {
    let output = ProcessEvent::child(KeeperMessage::child_stdout(vec![1, 2]));
    assert_eq!(output.child_output(), Some(&[1u8, 2][..]));
    assert!(!output.ends_process_stream());
    let errors = ProcessEvent::child(KeeperMessage::child_stderr(vec![3]));
    assert_eq!(errors.child_output(), Some(&[3u8][..]));
    let spawned = ProcessEvent::child(KeeperMessage::ChildSpawned);
    assert_eq!(spawned.child_output(), None);
    assert!(!spawned.is_child_exited());
    let exited = ProcessEvent::child(KeeperMessage::ChildExited);
    assert!(exited.is_child_exited());
    assert!(exited.ends_process_stream());
    let failed = ProcessEvent::keeper_status(KeeperStatus::error("lost".to_string()));
    assert_eq!(failed.keeper_error_message(), Some("lost"));
    assert!(failed.ends_process_stream());
    assert!(!failed.is_child_exited());
    let quiet = ProcessEvent::keeper_status(KeeperStatus { error: None });
    assert_eq!(quiet.keeper_error_message(), None);
    assert!(!quiet.ends_process_stream());
}

#[test]
fn frames_are_forwarded_up_to_the_last() {
    let (event, last) = forwarded(KeeperFrame::child(KeeperMessage::child_stdout(vec![7])));
    assert_eq!(event.child_output(), Some(&[7u8][..]));
    assert!(!last);
    let (event, last) = forwarded(KeeperFrame::child(KeeperMessage::ChildExited));
    assert!(event.is_child_exited() && last);
    let (event, last) = forwarded(KeeperFrame::status(KeeperStatus::error("gone".to_string())));
    assert_eq!(event.keeper_error_message(), Some("gone"));
    assert!(last);
}

#[test]
fn the_first_frame_decides() {
    assert!(matches!(
        spawn_reply(&KeeperFrame::child(KeeperMessage::ChildSpawned), "-"),
        SpawnReply::Spawned
    ));
    let cases = [
        (KeeperFrame::status(KeeperStatus::error("no".to_string())), "no"),
        (KeeperFrame::status(KeeperStatus { error: None }), "runner keeper reported an unknown error"),
        (
            KeeperFrame::child(KeeperMessage::ChildExited),
            "unexpected first keeper response: shown",
        ),
    ];
    for (frame, expected) in cases {
        match spawn_reply(&frame, "shown") {
            SpawnReply::Refused(text) => assert_eq!(text, expected),
            SpawnReply::Spawned => panic!("nothing was spawned"),
        }
    }
    assert_eq!(
        connect_failure(&UnixPath::from_text("/tmp/x.sock")),
        "failed to connect runner keeper at /tmp/x.sock"
    );
}
