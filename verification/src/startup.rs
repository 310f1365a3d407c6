//! The start of the application: what is looked at before a window is shown,
//! and what is shown where something is wrong.
use vstd::prelude::*;

use crate::config::{config_errors, config_valid, errors_tell_validity, AppConfig, ConfigRead};
use crate::manager::{RunnerInitialization, RunnerManager};
use crate::paths::{no_path_errors_when_usable, path_errors, paths_under, usable, PathProbe, PathsView, ResolvedPaths, StartupValidation};
use crate::report::RunnerWarnings;
use crate::text::joined;
use crate::unix_path::{lossy_text, UnixPath};

verus! {

/// What the application works with once it has been found in order.
pub struct AppContext {
    pub config: AppConfig,
    pub paths: ResolvedPaths,
    pub runner: RunnerManager,
}

/// How far the checks have got.
pub enum Preflight {
    /// The directories have to be looked at.
    Paths(ResolvedPaths),
    /// The configuration file has to be read.
    Config(ResolvedPaths),
    /// The files of the models have to be looked for.
    Files(ResolvedPaths, AppConfig),
    /// All is in order.
    Ready(AppContext),
    /// Something is wrong.
    Failed(StartupValidation),
}

/// What was found.
pub enum Finding {
    Paths(PathProbe),
    Config(ConfigRead),
    /// Which of the models' files are there, in the order of the models.
    Files(Vec<bool>),
}

/// How far the checks have got.
pub enum PreflightView {
    Paths(PathsView),
    Config(PathsView),
    Files(PathsView, AppConfig),
    Ready(PathsView, AppConfig),
    Failed(Seq<Seq<char>>),
}

impl View for Preflight {
    type V = PreflightView;

    open spec fn view(&self) -> PreflightView {
        match self {
            Preflight::Paths(paths) => PreflightView::Paths(paths@),
            Preflight::Config(paths) => PreflightView::Config(paths@),
            Preflight::Files(paths, config) => PreflightView::Files(paths@, *config),
            Preflight::Ready(context) => PreflightView::Ready(context.paths@, context.config),
            Preflight::Failed(validation) => PreflightView::Failed(validation@),
        }
    }
}

/// The checks after a finding.
pub open spec fn checked(state: PreflightView, finding: Finding) -> PreflightView {
    match (state, finding) {
        (PreflightView::Paths(paths), Finding::Paths(probe)) => if path_errors(paths, probe).len()
            == 0 {
            PreflightView::Config(paths)
        } else {
            PreflightView::Failed(path_errors(paths, probe))
        },
        (PreflightView::Config(paths), Finding::Config(read)) => match read {
            ConfigRead::Parsed(config) => PreflightView::Files(paths, config),
            ConfigRead::Invalid => PreflightView::Failed(seq!["failed to parse config file"@]),
            ConfigRead::Unreadable => PreflightView::Failed(
                seq!["failed to read config file at "@ + lossy_text(paths.config_path)],
            ),
        },
        (PreflightView::Files(paths, config), Finding::Files(there)) => if there@.len()
            != config.models.names().len() {
            state
        } else if config_errors(config, paths.files_root, there@).len() == 0 {
            PreflightView::Ready(paths, config)
        } else {
            PreflightView::Failed(config_errors(config, paths.files_root, there@))
        },
        _ => state,
    }
}

/// The checks, given the directory that the environment names.
pub open spec fn checks_for(models_root: Option<Seq<u8>>) -> PreflightView {
    match models_root {
        Some(root) => PreflightView::Paths(paths_under(root)),
        None => PreflightView::Failed(seq!["MODELS_ROOT environment variable is not set"@]),
    }
}

impl Preflight {
    /// The checks, given the directory that the environment names.
    pub fn begin(models_root: Option<UnixPath>) -> (r: Self)
        ensures
            models_root matches Some(root) ==> r@ == checks_for(Some(root@)),
            models_root is None ==> r@ == checks_for(None),
            match models_root {
                Some(root) => r is Paths && r->Paths_0@ == paths_under(root@),
                None => r is Failed && r->Failed_0@ == seq![
                    "MODELS_ROOT environment variable is not set"@,
                ],
            },
    {
        match ResolvedPaths::discover(models_root) {
            Ok(paths) => Preflight::Paths(paths),
            Err(error) => Preflight::Failed(StartupValidation::from_single(error)),
        }
    }

    /// The checks, given what was found; a finding that was not asked for
    /// changes nothing.
    pub fn advance(self, finding: Finding) -> (r: Self)
        ensures
            r@ == checked(self@, finding),
            match (self, finding) {
                (Preflight::Paths(paths), Finding::Paths(probe)) => if usable(probe) {
                    r == Preflight::Config(paths)
                } else {
                    r is Failed && r->Failed_0@ == path_errors(paths@, probe)
                },
                (Preflight::Config(paths), Finding::Config(read)) => match read {
                    ConfigRead::Parsed(config) => r == Preflight::Files(paths, config),
                    ConfigRead::Invalid => r is Failed && r->Failed_0@ == seq![
                        "failed to parse config file"@,
                    ],
                    ConfigRead::Unreadable => r is Failed && r->Failed_0@ == seq![
                        "failed to read config file at "@ + lossy_text(paths@.config_path),
                    ],
                },
                (Preflight::Files(paths, config), Finding::Files(there)) => if there@.len()
                    != config.models.names().len() {
                    r == self
                } else if config_valid(config, there@) {
                    &&& r is Ready
                    &&& r->Ready_0.config == config
                    &&& r->Ready_0.paths == paths
                    &&& r->Ready_0.runner.paths() == paths@
                    &&& r->Ready_0.runner.env().text_map() == config.runner.env.text_map()
                    &&& r->Ready_0.runner.keeper() is None
                } else {
                    r is Failed && r->Failed_0@ == config_errors(
                        config,
                        paths@.files_root,
                        there@,
                    )
                },
                _ => r == self,
            },
    {
        match (self, finding) {
            (Preflight::Paths(paths), Finding::Paths(probe)) => {
                let validation = paths.validate(&probe);
                proof {
                    no_path_errors_when_usable(paths@, probe);
                }
                if validation.has_errors() {
                    Preflight::Failed(validation)
                } else {
                    Preflight::Config(paths)
                }
            },
            (Preflight::Config(paths), Finding::Config(read)) => match AppConfig::load(
                &paths,
                read,
            ) {
                Ok(config) => Preflight::Files(paths, config),
                Err(error) => Preflight::Failed(StartupValidation::from_single(error)),
            },
            (Preflight::Files(paths, config), Finding::Files(there)) => {
                if there.len() != config.models.len() {
                    return Preflight::Files(paths, config);
                }
                let validation = config.validate(&paths, &there);
                proof {
                    errors_tell_validity(config, paths@.files_root, there@);
                }
                if validation.has_errors() {
                    return Preflight::Failed(validation);
                }
                let runner = RunnerManager::new(paths.clone(), config.runner.env.duplicate());
                Preflight::Ready(AppContext { config, paths, runner })
            },
            (state, _) => state,
        }
    }
}

/// What came of the start.
pub enum StartupState {
    Pending,
    Ready(AppContext),
    Failed(StartupValidation),
}

/// A message with a heading.
#[derive(Debug)]
pub struct Alert {
    pub heading: &'static str,
    pub body: String,
}

/// What is done when the application is activated.
#[derive(Debug)]
pub enum Activation {
    /// The window that is there is shown.
    PresentWindow,
    /// A window is made.
    BuildWindow,
    /// The user is told what is wrong, and the application ends.
    ShowFailure(Alert),
}

/// What is done when the application is activated.
pub enum ActivationView {
    PresentWindow,
    BuildWindow,
    /// A heading and a text are shown.
    ShowFailure(Seq<char>, Seq<char>),
}

impl View for Activation {
    type V = ActivationView;

    open spec fn view(&self) -> ActivationView {
        match self {
            Activation::PresentWindow => ActivationView::PresentWindow,
            Activation::BuildWindow => ActivationView::BuildWindow,
            Activation::ShowFailure(alert) => ActivationView::ShowFailure(
                alert.heading@,
                alert.body@,
            ),
        }
    }
}

/// What is done when the application is activated.
pub open spec fn activation(state: StartupState, has_window: bool) -> ActivationView {
    if has_window {
        ActivationView::PresentWindow
    } else {
        match state {
            StartupState::Ready(_) => ActivationView::BuildWindow,
            StartupState::Failed(validation) => ActivationView::ShowFailure(
                "Startup checks failed"@,
                joined(validation@, "\n"@),
            ),
            StartupState::Pending => ActivationView::ShowFailure(
                "Startup checks failed"@,
                "Internal startup state was unavailable"@,
            ),
        }
    }
}

impl StartupState {
    /// What is done when the application is activated.
    pub fn activate(&self, has_window: bool) -> (r: Activation)
        ensures
            r@ == activation(*self, has_window),
            if has_window {
                r is PresentWindow
            } else {
                match self {
                    StartupState::Ready(_) => r is BuildWindow,
                    StartupState::Failed(validation) => {
                        &&& r is ShowFailure
                        &&& r->ShowFailure_0.heading@ == "Startup checks failed"@
                        &&& r->ShowFailure_0.body@ == joined(validation@, "\n"@)
                    },
                    StartupState::Pending => {
                        &&& r is ShowFailure
                        &&& r->ShowFailure_0.heading@ == "Startup checks failed"@
                        &&& r->ShowFailure_0.body@ == "Internal startup state was unavailable"@
                    },
                }
            },
    {
        if has_window {
            return Activation::PresentWindow;
        }
        match self {
            StartupState::Ready(_) => Activation::BuildWindow,
            StartupState::Failed(validation) => Activation::ShowFailure(
                Alert { heading: "Startup checks failed", body: validation.body() },
            ),
            StartupState::Pending => {
                let validation = StartupValidation::from_message(
                    "Internal startup state was unavailable".to_owned(),
                );
                Activation::ShowFailure(
                    Alert { heading: "Startup checks failed", body: validation.body() },
                )
            },
        }
    }
}

/// What a user is told of the runner: a heading and a text, if anything.
pub open spec fn told_of(initialization: RunnerInitialization) -> Option<(Seq<char>, Seq<char>)> {
    match initialization {
        RunnerInitialization::Ready(warnings) => if warnings@.len() > 0 {
            Some(("Runner initialized with warnings"@, joined(warnings@, "\n"@)))
        } else {
            None
        },
        RunnerInitialization::Fatal(message) => Some(("Runner failed to initialize"@, message@)),
    }
}

/// What a user is told of the runner, if anything.
pub fn runner_alert(initialization: &RunnerInitialization) -> (r: Option<Alert>)
    ensures
        r is Some == told_of(*initialization) is Some,
        r matches Some(alert) ==> told_of(*initialization) == Some((alert.heading@, alert.body@)),
        match initialization {
            RunnerInitialization::Ready(warnings) => {
                &&& r is Some == (warnings@.len() > 0)
                &&& r matches Some(alert) ==> {
                    &&& alert.heading@ == "Runner initialized with warnings"@
                    &&& alert.body@ == joined(warnings@, "\n"@)
                }
            },
            RunnerInitialization::Fatal(message) => {
                &&& r is Some
                &&& r->Some_0.heading@ == "Runner failed to initialize"@
                &&& r->Some_0.body@ == message@
            },
        },
{
    match initialization {
        RunnerInitialization::Ready(warnings) => if warnings.is_empty() {
            None
        } else {
            Some(Alert { heading: "Runner initialized with warnings", body: warnings.body() })
        },
        RunnerInitialization::Fatal(message) => Some(
            Alert { heading: "Runner failed to initialize", body: message.clone() },
        ),
    }
}

/// The application gets ready if and only if a directory is named, everything in
/// it is there, the configuration can be read, and it is as it has to be; it works
/// with these directories and this configuration. Else the user is told all that
/// was found wrong at that point.
pub proof fn application_gets_ready_if_all_is_in_order(
    root: Seq<u8>,
    probe: PathProbe,
    read: ConfigRead,
    there: Vec<bool>,
)
    requires
        read matches ConfigRead::Parsed(config) ==> there@.len() == config.models.names().len(),
    ensures
        ({
            let paths = paths_under(root);
            let end = checked(
                checked(
                    checked(checks_for(Some(root)), Finding::Paths(probe)),
                    Finding::Config(read),
                ),
                Finding::Files(there),
            );
            &&& path_errors(paths, probe).len() > 0 ==> end == PreflightView::Failed(
                path_errors(paths, probe),
            )
            &&& path_errors(paths, probe).len() == 0 ==> match read {
                ConfigRead::Parsed(config) => {
                    let errors = config_errors(config, paths.files_root, there@);
                    &&& errors.len() == 0 ==> end == PreflightView::Ready(paths, config)
                    &&& errors.len() > 0 ==> end == PreflightView::Failed(errors)
                },
                ConfigRead::Invalid => end == PreflightView::Failed(
                    seq!["failed to parse config file"@],
                ),
                ConfigRead::Unreadable => end == PreflightView::Failed(
                    seq!["failed to read config file at "@ + lossy_text(paths.config_path)],
                ),
            }
        }),
        checks_for(None) == PreflightView::Failed(
            seq!["MODELS_ROOT environment variable is not set"@],
        ),
{
}

/// Checks that have failed or are done are not taken up again.
pub proof fn checks_end_once(state: PreflightView, finding: Finding)
    requires
        state is Ready || state is Failed,
    ensures
        checked(state, finding) == state,
{
}

/// A window that is there is shown; another is made if and only if the checks went
/// well, and where they did not all errors are shown, one per line.
pub proof fn window_is_made_if_ready(state: StartupState, has_window: bool)
    ensures
        activation(state, has_window) is PresentWindow <==> has_window,
        activation(state, has_window) is BuildWindow <==> !has_window && state is Ready,
        state matches StartupState::Failed(validation) ==> {
            let shown = activation(state, false);
            &&& shown is ShowFailure
            &&& shown->ShowFailure_0 == "Startup checks failed"@
            &&& validation.errors@.len() == 1 ==> shown->ShowFailure_1 == validation.errors@[0]@
            &&& shown->ShowFailure_1 == joined(validation@, "\n"@)
        },
{
    if let StartupState::Failed(validation) = state {
        if validation.errors@.len() == 1 {
            assert(validation@ =~= seq![validation.errors@[0]@]);
        }
    }
}

/// A user is told of a runner that could not be set up, and of one that could with
/// warnings; of one that could without, nothing.
pub proof fn runner_is_told_of_if_something_is_wrong(
    warnings: RunnerWarnings,
    message: String,
)
    ensures
        told_of(RunnerInitialization::Ready(warnings)) is None <==> warnings.messages@.len() == 0,
        warnings.messages@.len() > 0 ==> told_of(RunnerInitialization::Ready(warnings)) == Some(
            ("Runner initialized with warnings"@, joined(warnings@, "\n"@)),
        ),
        told_of(RunnerInitialization::Fatal(message)) == Some(
            ("Runner failed to initialize"@, message@),
        ),
{
}

} // verus!
