use model_assistant::config::{
    AppConfig, ConfigRead, ModeConfig, ModelConfig, ModelRuntimeConfig, RunnerConfig, RuntimeConfig,
};
use model_assistant::ipc::{ClientMessage, KeeperMessage, KeeperStatus};
use model_assistant::launch::ProcessEvent;
use model_assistant::manager::RunnerInitialization;
use model_assistant::names::NameMap;
use model_assistant::paths::{PathProbe, RootfsProbe, StartupValidation};
use model_assistant::report::RunnerWarnings;
use model_assistant::startup::{runner_alert, Activation, AppContext, Finding, Preflight, StartupState};
use model_assistant::unix_path::UnixPath;
use model_assistant::window::{
    index_of, model_of_row, model_row_name, resolve_mode_choices, resolve_runtime_choices, status_icon, toast_text, AppState, EventEffect,
    ModelRuntime, StartAction,
};

fn list(items: &[&str]) -> Vec<String> {
    items.iter().map(|item| item.to_string()).collect()
}

fn runtime(names: &[(&str, bool)]) -> RuntimeConfig {
    let mut modes = NameMap::new();
    for (name, interactive) in names {
        modes.insert(
            name.to_string(),
            ModeConfig { executable: format!("/bin/{name}"), interactive: *interactive, args: vec![] },
        );
    }
    RuntimeConfig { model_arg: "-m".to_string(), modes }
}

fn mapping(default_mode: &str) -> ModelRuntimeConfig {
    ModelRuntimeConfig {
        default_mode: default_mode.to_string(),
        env: NameMap::new(),
        args: vec![],
        modes: NameMap::new(),
    }
}

fn config() -> AppConfig {
    let mut runtimes = NameMap::new();
    runtimes.insert("llama".to_string(), runtime(&[("chat", true), ("serve", false)]));
    runtimes.insert("vllm".to_string(), runtime(&[("batch", false)]));
    let mut mappings = NameMap::new();
    mappings.insert("llama".to_string(), mapping("serve"));
    mappings.insert("vllm".to_string(), mapping("batch"));
    let mut models = NameMap::new();
    models.insert(
        "tiny".to_string(),
        ModelConfig {
            title: "Tiny".to_string(),
            file: "tiny.gguf".to_string(),
            default_runtime: "llama".to_string(),
            runtimes: mappings,
        },
    );
    let mut env = NameMap::new();
    env.insert_text("A", "1");
    AppConfig { config_version: 1, runner: RunnerConfig { env }, runtimes, models }
}

fn probe() -> PathProbe {
    PathProbe {
        models_root_is_dir: true,
        runner_root_is_dir: true,
        rootfs: RootfsProbe {
            dev: true,
            proc: true,
            tmp: true,
            usr_lib: true,
            usr_lib64: true,
            library_entries: vec![vec![UnixPath::from_text("ld-linux-x86-64.so.2")]],
        },
        files_root_is_dir: true,
        config_is_file: true,
    }
}

fn begin() -> Preflight {
    Preflight::begin(Some(UnixPath::from_text("/m")))
}

fn context() -> AppContext {
    let end = begin()
        .advance(Finding::Paths(probe()))
        .advance(Finding::Config(ConfigRead::Parsed(config())))
        .advance(Finding::Files(vec![true]));
    match end {
        Preflight::Ready(context) => context,
        _ => panic!("everything is in order"),
    }
}

fn failure(preflight: Preflight) -> Vec<String> {
    match preflight {
        Preflight::Failed(validation) => validation.errors,
        _ => panic!("something is wrong"),
    }
}

#[test]
fn everything_in_order_makes_a_context() {
    let context = context();
    assert_eq!(context.paths.runner_root.display(), "/m/Runner");
    assert_eq!(context.runner.runner_env().get("A").unwrap(), "1");
    assert!(context.config.models.contains_key("tiny"));
}

#[test]
fn each_check_may_fail() {
    assert_eq!(failure(Preflight::begin(None)), list(&["MODELS_ROOT environment variable is not set"]));
    let bad = PathProbe { config_is_file: false, ..probe() };
    assert_eq!(
        failure(begin().advance(Finding::Paths(bad))),
        list(&["config file does not exist: /m/Files/assistant.toml"])
    );
    let read = |read| failure(begin().advance(Finding::Paths(probe())).advance(Finding::Config(read)));
    assert_eq!(read(ConfigRead::Unreadable), list(&["failed to read config file at /m/Files/assistant.toml"]));
    assert_eq!(read(ConfigRead::Invalid), list(&["failed to parse config file"]));
    let end = begin()
        .advance(Finding::Paths(probe()))
        .advance(Finding::Config(ConfigRead::Parsed(config())))
        .advance(Finding::Files(vec![false]));
    assert_eq!(failure(end), list(&["model `tiny` file is missing: /m/Files/tiny.gguf"]));
}

#[test]
fn a_finding_that_was_not_asked_for_changes_nothing() {
    assert!(matches!(begin().advance(Finding::Files(vec![])), Preflight::Paths(_)));
    let files = begin()
        .advance(Finding::Paths(probe()))
        .advance(Finding::Config(ConfigRead::Parsed(config())));
    assert!(matches!(files.advance(Finding::Files(vec![true, true])), Preflight::Files(_, _)));
}

#[test]
fn what_activation_does() {
    assert!(matches!(StartupState::Pending.activate(true), Activation::PresentWindow));
    assert!(matches!(StartupState::Ready(context()).activate(false), Activation::BuildWindow));
    match StartupState::Pending.activate(false) {
        Activation::ShowFailure(alert) => {
            assert_eq!(alert.heading, "Startup checks failed");
            assert_eq!(alert.body, "Internal startup state was unavailable");
        }
        _ => panic!("there is nothing to show"),
    }
    let mut validation = StartupValidation::from_message("one".to_string());
    validation.push("two".to_string());
    match StartupState::Failed(validation).activate(false) {
        Activation::ShowFailure(alert) => assert_eq!(alert.body, "one\ntwo"),
        _ => panic!("the start has failed"),
    }
}

#[test]
fn what_is_told_of_the_runner() {
    assert!(runner_alert(&RunnerInitialization::Ready(RunnerWarnings::new())).is_none());
    let mut warnings = RunnerWarnings::new();
    warnings.push("one".to_string());
    warnings.push("two".to_string());
    let alert = runner_alert(&RunnerInitialization::Ready(warnings)).unwrap();
    assert_eq!((alert.heading, alert.body.as_str()), ("Runner initialized with warnings", "one\ntwo"));
    let alert = runner_alert(&RunnerInitialization::Fatal("no".to_string())).unwrap();
    assert_eq!((alert.heading, alert.body.as_str()), ("Runner failed to initialize", "no"));
}

#[test]
fn running_models_are_counted() {
    let mut state = AppState::new();
    assert!(!state.has_running_models());
    assert!(state.close_request().is_none());
    state.mark_process_stopped();
    state.mark_process_started();
    state.mark_process_started();
    state.mark_process_stopped();
    assert!(state.has_running_models());
    let alert = state.close_request().unwrap();
    assert_eq!(alert.heading, "Stop all models before closing");
    assert_eq!(
        alert.body,
        "At least one model is still running. Stop every running model, then close the application again."
    );
    state.mark_process_stopped();
    assert!(!state.has_running_models());
}

#[test]
fn places_in_lists() {
    let items = list(&["a", "b", "a"]);
    assert_eq!(index_of(&items, "a"), Some(0));
    assert_eq!(index_of(&items, "b"), Some(1));
    assert_eq!(index_of(&items, "c"), None);
}

#[test]
fn rows_tell_their_models() {
    assert_eq!(model_row_name("tiny"), "model-row-tiny");
    assert_eq!(model_of_row("model-row-tiny"), Some("tiny".to_string()));
    assert_eq!(model_of_row("model-row-"), Some(String::new()));
    assert_eq!(model_of_row("row-tiny"), None);
}

#[test]
fn modes_of_a_runtime() {
    let config = config();
    let tiny = config.models.get("tiny").unwrap();
    let choices = resolve_mode_choices(&config, "tiny", tiny, "llama");
    assert_eq!(choices.names, list(&["chat", "serve"]));
    assert_eq!(choices.selected, "serve");
    let none = resolve_mode_choices(&config, "tiny", tiny, "other");
    assert!(none.names.is_empty());
    assert_eq!(none.selected, "");
}

#[test]
fn runtimes_of_a_model() {
    let config = config();
    let tiny = config.models.get("tiny").unwrap();
    let choices = resolve_runtime_choices(tiny);
    assert_eq!(choices.names, list(&["llama", "vllm"]));
    assert_eq!(choices.index, 0);
    let other = ModelConfig { default_runtime: "vllm".to_string(), ..tiny.clone() };
    assert_eq!(resolve_runtime_choices(&other).index, 1);
    let gone = ModelConfig { default_runtime: "gone".to_string(), ..tiny.clone() };
    assert_eq!(resolve_runtime_choices(&gone).index, 0);
    let none = ModelConfig { runtimes: NameMap::new(), ..tiny.clone() };
    assert!(resolve_runtime_choices(&none).names.is_empty());
    assert_eq!(resolve_runtime_choices(&none).index, 0);
}

#[test]
fn a_fresh_model() {
    let context = context();
    let tiny = context.config.models.get("tiny").unwrap();
    let model = ModelRuntime::build(&context, "tiny", tiny);
    assert_eq!(model.selection.runtime_name, "llama");
    assert_eq!(model.selection.mode_name, "serve");
    assert_eq!(model.controls.mode_names, list(&["chat", "serve"]));
    assert_eq!(model.controls.mode_index, 1);
    assert_eq!(model.controls.command_label, "[tiny/llama/serve] /bin/serve -m /mnt/tiny.gguf");
    assert!(model.controls.start_enabled && model.controls.choices_enabled);
    assert!(!model.controls.stop_enabled && !model.controls.input_enabled);
    assert_eq!(model.controls.icon, "media-playback-stop-symbolic");
}

#[test]
fn selecting_refreshes_the_command() {
    let context = context();
    let tiny = context.config.models.get("tiny").unwrap();
    let mut model = ModelRuntime::build(&context, "tiny", tiny);
    model.select_runtime(&context, tiny, "vllm".to_string());
    assert_eq!(model.controls.mode_names, list(&["batch"]));
    assert_eq!(model.controls.command_label, "[tiny/vllm/batch] /bin/batch -m /mnt/tiny.gguf");
    model.select_mode(&context, tiny, "sing".to_string());
    assert_eq!(model.controls.command_label, "Config error: unknown mode `sing` for runtime `vllm`");
    model.select_runtime(&context, tiny, "none".to_string());
    assert_eq!(model.controls.command_label, "Config error: model `tiny` has no runtime mapping `none`");
    assert!(model.controls.mode_names.is_empty());
    assert_eq!(model.controls.mode_index, 0);
    match model.start_process(&context, tiny) {
        StartAction::Refuse(text) => {
            assert_eq!(text, "Failed to start model: model `tiny` has no runtime mapping `none`")
        }
        _ => panic!("the model cannot be run"),
    }
}

#[test]
fn the_life_of_a_process() {
    let context = context();
    let tiny = context.config.models.get("tiny").unwrap();
    let mut state = AppState::new();
    let mut model = ModelRuntime::build(&context, "tiny", tiny);
    model.select_mode(&context, tiny, "chat".to_string());
    assert!(model.selected_mode_is_interactive(&context, tiny));
    assert!(model.stop_process().is_none());
    assert!(model.submit_input("hello").is_none());
    let plan = match model.start_process(&context, tiny) {
        StartAction::Spawn(plan) => plan,
        _ => panic!("the model can be run"),
    };
    assert_eq!(plan.command, list(&["chroot", "/m/Runner", "/bin/chat", "-m", "/mnt/tiny.gguf"]));
    assert_eq!(plan.env.get("A").unwrap(), "1");
    assert_eq!(plan.command_preview, "[tiny/llama/chat] /bin/chat -m /mnt/tiny.gguf");
    let told = model.process_spawned(&mut state, plan.interactive, Err("no keeper".to_string()));
    assert_eq!(told, Some("Failed to start model: no keeper".to_string()));
    assert!(!state.has_running_models());
    assert_eq!(model.process_spawned(&mut state, plan.interactive, Ok(())), None);
    assert!(state.has_running_models());
    assert!(model.running && model.controls.stop_enabled && model.controls.input_enabled);
    assert!(!model.controls.start_enabled && !model.controls.choices_enabled);
    assert_eq!(model.controls.icon, "media-playback-start-symbolic");
    assert!(matches!(model.start_process(&context, tiny), StartAction::Nothing));
    assert!(matches!(model.stop_process(), Some(ClientMessage::Stop)));
    assert!(model.submit_input(" \t").is_none());
    match model.submit_input("hi ") {
        Some(ClientMessage::Stdin { data }) => assert_eq!(data, "hi \n"),
        _ => panic!("the line goes to the process"),
    }
    let spawned = ProcessEvent::child(KeeperMessage::ChildSpawned);
    assert!(matches!(model.handle_process_event(&mut state, &spawned), EventEffect::Nothing));
    let output = ProcessEvent::child(KeeperMessage::child_stderr(vec![9]));
    match model.handle_process_event(&mut state, &output) {
        EventEffect::Output(data) => assert_eq!(data, vec![9]),
        _ => panic!("there is output"),
    }
    let exited = ProcessEvent::child(KeeperMessage::ChildExited);
    match model.handle_process_event(&mut state, &exited) {
        EventEffect::Finished { error } => assert_eq!(error, None),
        _ => panic!("the process has ended"),
    }
    assert!(!state.has_running_models());
    assert!(!model.running && model.controls.start_enabled && !model.controls.input_enabled);
}

#[test]
fn a_keeper_that_fails_ends_the_process() {
    let context = context();
    let tiny = context.config.models.get("tiny").unwrap();
    let mut state = AppState::new();
    let mut model = ModelRuntime::build(&context, "tiny", tiny);
    model.process_spawned(&mut state, true, Ok(()));
    let quiet = ProcessEvent::keeper_status(KeeperStatus { error: None });
    assert!(matches!(model.handle_process_event(&mut state, &quiet), EventEffect::Nothing));
    let failed = ProcessEvent::keeper_status(KeeperStatus::error("lost".to_string()));
    match model.handle_process_event(&mut state, &failed) {
        EventEffect::Finished { error } => assert_eq!(error, Some("lost".to_string())),
        _ => panic!("the keeper has failed"),
    }
    assert!(!model.running);
    assert!(state.close_request().is_none());
    model.finish_process(&mut state);
    assert!(!state.has_running_models());
}

#[test]
fn texts_that_are_shown() {
    assert_eq!(toast_text("Failed to stop model", "gone"), "Failed to stop model: gone");
    assert_eq!(status_icon(true), "media-playback-start-symbolic");
    assert_eq!(status_icon(false), "media-playback-stop-symbolic");
}
