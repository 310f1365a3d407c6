//! The configuration: runtimes, models, and how a model is run by a runtime.
use vstd::prelude::*;
use vstd::utf8::encode_utf8;

use crate::names::NameMap;
use crate::paths::{ResolvedPaths, StartupError, StartupValidation};
use crate::text::{blank, decimal_digits, digits, flagged, gathered, is_blank, nothing_is_gathered, same_text, starts_with_char, text2, text3, text5, text7, texts};
use crate::unix_path::{lossy_text, path_joined, UnixPath};

verus! {

/// The version of the configuration that is understood.
pub const CONFIG_VERSION: u32 = 1;

/// A whole configuration.
#[derive(Debug, Clone)]
pub struct AppConfig {
    pub config_version: u32,
    pub runner: RunnerConfig,
    pub runtimes: NameMap<RuntimeConfig>,
    pub models: NameMap<ModelConfig>,
}

/// What holds for everything that is run.
#[derive(Debug, Clone)]
pub struct RunnerConfig {
    pub env: NameMap<String>,
}

/// A family of programs that run models.
#[derive(Debug, Clone)]
pub struct RuntimeConfig {
    /// The argument that comes before the path of the model.
    pub model_arg: String,
    pub modes: NameMap<ModeConfig>,
}

/// A way to use a runtime.
#[derive(Debug, Clone)]
pub struct ModeConfig {
    pub executable: String,
    pub interactive: bool,
    pub args: Vec<String>,
}

/// A model and the runtimes that can run it.
#[derive(Debug, Clone)]
pub struct ModelConfig {
    pub title: String,
    pub file: String,
    pub default_runtime: String,
    pub runtimes: NameMap<ModelRuntimeConfig>,
}

/// How a runtime runs a model.
#[derive(Debug, Clone)]
pub struct ModelRuntimeConfig {
    pub default_mode: String,
    pub env: NameMap<String>,
    pub args: Vec<String>,
    pub modes: NameMap<ModelModeOverride>,
}

/// What a model adds to a mode of a runtime.
#[derive(Debug, Clone)]
pub struct ModelModeOverride {
    pub args: Vec<String>,
    pub env: NameMap<String>,
}

impl Default for ModelModeOverride {
    fn default() -> (r: Self)
        ensures
            r.args@ == Seq::<String>::empty(),
            r.env.wf(),
            r.env.names().len() == 0,
    {
        ModelModeOverride { args: Vec::new(), env: NameMap::new() }
    }
}

/// A runtime, with what a model adds to it.
pub struct ModelRuntimeBinding<'a> {
    pub runtime_name: String,
    pub runtime: &'a RuntimeConfig,
    pub model_runtime: &'a ModelRuntimeConfig,
}

/// A mode of a runtime, with what a model adds to it.
pub struct ModelModeBinding<'a> {
    pub mode: &'a ModeConfig,
    pub model_override: Option<&'a ModelModeOverride>,
}

/// A runtime and one of its modes, with what a model adds to them.
pub struct ResolvedModeBinding<'a> {
    pub runtime: ModelRuntimeBinding<'a>,
    pub mode: ModelModeBinding<'a>,
}

/// The model argument of a runtime that gives none.
pub fn fallback_model_arg() -> (r: String)
    ensures
        r@ == "--model"@,
{
    "--model".to_owned()
}

/// What is wrong with a mode.
pub open spec fn mode_errors(
    runtime_name: Seq<char>,
    mode_name: Seq<char>,
    mode: ModeConfig,
) -> Seq<Seq<char>> {
    flagged(
        blank(mode.executable@),
        "runtime `"@ + runtime_name + "` mode `"@ + mode_name
            + "` must define a non-empty executable"@,
    )
}

/// Whether an argument begins as an option does.
pub open spec fn is_option(arg: Seq<char>) -> bool {
    arg.len() > 0 && arg[0] == '-'
}

/// What is wrong with a runtime.
pub open spec fn runtime_errors(name: Seq<char>, runtime: RuntimeConfig) -> Seq<Seq<char>> {
    flagged(
        !is_option(runtime.model_arg@),
        "runtime `"@ + name + "` has invalid model_arg `"@ + runtime.model_arg@ + "`"@,
    ) + flagged(
        runtime.modes.names().len() == 0,
        "runtime `"@ + name + "` must declare at least one mode"@,
    ) + gathered(
        runtime.modes.names().len() as int,
        |i: int| mode_errors(name, runtime.modes.names()[i], runtime.modes.value(i)),
    )
}

/// What is wrong with the changes that a model makes to the mode `mode_name`.
pub open spec fn override_errors(
    model_id: Seq<char>,
    runtime_name: Seq<char>,
    runtime: RuntimeConfig,
    mode_name: Seq<char>,
) -> Seq<Seq<char>> {
    flagged(
        !runtime.modes.has(mode_name),
        "model `"@ + model_id + "` references unknown mode override `"@ + mode_name
            + "` for runtime `"@ + runtime_name + "`"@,
    )
}

/// What is wrong with the way in which the runtime `runtime_name` runs a model.
pub open spec fn mapping_errors(
    runtimes: NameMap<RuntimeConfig>,
    model_id: Seq<char>,
    runtime_name: Seq<char>,
    mapping: ModelRuntimeConfig,
) -> Seq<Seq<char>> {
    if !runtimes.has(runtime_name) {
        seq!["model `"@ + model_id + "` references unknown runtime `"@ + runtime_name + "`"@]
    } else {
        let runtime = runtimes.at(runtime_name);
        flagged(
            !runtime.modes.has(mapping.default_mode@),
            "model `"@ + model_id + "` references unknown default mode `"@ + mapping.default_mode@
                + "` for runtime `"@ + runtime_name + "`"@,
        ) + gathered(
            mapping.modes.names().len() as int,
            |i: int| override_errors(model_id, runtime_name, runtime, mapping.modes.names()[i]),
        )
    }
}

/// Whether the title of the `i`-th model is that of an earlier one.
pub open spec fn title_repeated(models: NameMap<ModelConfig>, i: int) -> bool {
    exists|j: int| 0 <= j < i && (#[trigger] models.value(j)).title@ == models.value(i).title@
}

/// The path of a model's file.
pub open spec fn model_path(files_root: Seq<u8>, model: ModelConfig) -> Seq<u8> {
    path_joined(files_root, encode_utf8(model.file@))
}

/// What is wrong with the `i`-th model, whose file is there or not.
pub open spec fn model_errors(
    config: AppConfig,
    files_root: Seq<u8>,
    i: int,
    file_is_there: bool,
) -> Seq<Seq<char>> {
    let id = config.models.names()[i];
    let model = config.models.value(i);
    flagged(blank(model.title@), "model `"@ + id + "` must define a title"@) + flagged(
        title_repeated(config.models, i),
        "duplicate model title `"@ + model.title@ + "`"@,
    ) + flagged(
        model.runtimes.names().len() == 0,
        "model `"@ + id + "` must declare at least one runtime mapping"@,
    ) + flagged(
        !file_is_there,
        "model `"@ + id + "` file is missing: "@ + lossy_text(model_path(files_root, model)),
    ) + flagged(
        !model.runtimes.has(model.default_runtime@),
        "model `"@ + id + "` references unknown default runtime `"@ + model.default_runtime@
            + "` in its runtime mappings"@,
    ) + gathered(
        model.runtimes.names().len() as int,
        |k: int|
            mapping_errors(config.runtimes, id, model.runtimes.names()[k], model.runtimes.value(k)),
    )
}

/// What is wrong with a configuration, given which of the models' files are
/// there.
pub open spec fn config_errors(
    config: AppConfig,
    files_root: Seq<u8>,
    files_there: Seq<bool>,
) -> Seq<Seq<char>> {
    flagged(
        config.config_version != CONFIG_VERSION,
        "unsupported config_version "@ + digits(config.config_version as nat) + ", expected 1"@,
    ) + flagged(
        config.runtimes.names().len() == 0,
        "config must declare at least one runtime"@,
    ) + flagged(
        config.models.names().len() == 0,
        "config must declare at least one model"@,
    ) + gathered(
        config.runtimes.names().len() as int,
        |i: int| runtime_errors(config.runtimes.names()[i], config.runtimes.value(i)),
    ) + gathered(
        config.models.names().len() as int,
        |i: int| model_errors(config, files_root, i, files_there[i]),
    )
}

/// Adds what is wrong with a runtime.
fn check_runtime(name: &str, runtime: &RuntimeConfig, validation: &mut StartupValidation)
    ensures
        final(validation)@ == old(validation)@ + runtime_errors(name@, *runtime),
{
    let ghost start = validation@;
    if !starts_with_char(runtime.model_arg.as_str(), '-') {
        validation.push(
            text5(
                "runtime `",
                name,
                "` has invalid model_arg `",
                runtime.model_arg.as_str(),
                "`",
            ),
        );
    }
    if runtime.modes.is_empty() {
        validation.push(text3("runtime `", name, "` must declare at least one mode"));
    }
    let ghost head = validation@;
    let ghost f = |i: int| mode_errors(name@, runtime.modes.names()[i], runtime.modes.value(i));
    let mut i: usize = 0;
    proof {
        assert(head + gathered(0, f) =~= head);
    }
    while i < runtime.modes.len()
        invariant
            i <= runtime.modes.names().len(),
            f == |i: int| mode_errors(name@, runtime.modes.names()[i], runtime.modes.value(i)),
            validation@ == head + gathered(i as int, f),
        decreases runtime.modes.names().len() - i,
    {
        let ghost before = validation@;
        let mode = runtime.modes.value_at(i);
        let mode_name = runtime.modes.name_at(i);
        if is_blank(mode.executable.as_str()) {
            validation.push(
                text5(
                    "runtime `",
                    name,
                    "` mode `",
                    mode_name.as_str(),
                    "` must define a non-empty executable",
                ),
            );
        }
        proof {
            assert(validation@ =~= before + f(i as int));
            assert(head + (gathered(i as int, f) + f(i as int)) =~= (head + gathered(i as int, f))
                + f(i as int));
        }
        i += 1;
    }
    proof {
        assert(head + gathered(i as int, f) =~= start + runtime_errors(name@, *runtime));
    }
}

/// Adds what is wrong with the way in which a runtime runs a model.
fn check_mapping(
    runtimes: &NameMap<RuntimeConfig>,
    model_id: &str,
    runtime_name: &str,
    mapping: &ModelRuntimeConfig,
    validation: &mut StartupValidation,
)
    ensures
        final(validation)@ == old(validation)@ + mapping_errors(
            *runtimes,
            model_id@,
            runtime_name@,
            *mapping,
        ),
{
    let ghost start = validation@;
    let runtime = match runtimes.get(runtime_name) {
        Some(runtime) => runtime,
        None => {
            validation.push(
                text5(
                    "model `",
                    model_id,
                    "` references unknown runtime `",
                    runtime_name,
                    "`",
                ),
            );
            proof {
                assert(validation@ =~= start + mapping_errors(
                    *runtimes,
                    model_id@,
                    runtime_name@,
                    *mapping,
                ));
            }
            return ;
        },
    };
    if !runtime.modes.contains_key(mapping.default_mode.as_str()) {
        validation.push(
            text7(
                "model `",
                model_id,
                "` references unknown default mode `",
                mapping.default_mode.as_str(),
                "` for runtime `",
                runtime_name,
                "`",
            ),
        );
    }
    let ghost head = validation@;
    let ghost f = |i: int|
        override_errors(model_id@, runtime_name@, *runtime, mapping.modes.names()[i]);
    let mut i: usize = 0;
    proof {
        assert(head + gathered(0, f) =~= head);
    }
    while i < mapping.modes.len()
        invariant
            i <= mapping.modes.names().len(),
            f == |i: int|
                override_errors(model_id@, runtime_name@, *runtime, mapping.modes.names()[i]),
            validation@ == head + gathered(i as int, f),
        decreases mapping.modes.names().len() - i,
    {
        let ghost before = validation@;
        let mode_name = mapping.modes.name_at(i);
        if !runtime.modes.contains_key(mode_name.as_str()) {
            validation.push(
                text7(
                    "model `",
                    model_id,
                    "` references unknown mode override `",
                    mode_name.as_str(),
                    "` for runtime `",
                    runtime_name,
                    "`",
                ),
            );
        }
        proof {
            assert(validation@ =~= before + f(i as int));
            assert(head + (gathered(i as int, f) + f(i as int)) =~= (head + gathered(i as int, f))
                + f(i as int));
        }
        i += 1;
    }
    proof {
        assert(head + gathered(i as int, f) =~= start + mapping_errors(
            *runtimes,
            model_id@,
            runtime_name@,
            *mapping,
        ));
    }
}

impl AppConfig {
    /// Whether the title of the `i`-th model is that of an earlier one.
    fn repeats_title(&self, i: usize) -> (r: bool)
        requires
            i < self.models.names().len(),
        ensures
            r == title_repeated(self.models, i as int),
    {
        let title = &self.models.value_at(i).title;
        let mut j: usize = 0;
        while j < i
            invariant
                j <= i < self.models.names().len(),
                title@ == self.models.value(i as int).title@,
                forall|k: int| 0 <= k < j ==> (#[trigger] self.models.value(k)).title@ != title@,
            decreases i - j,
        {
            let earlier = self.models.value_at(j);
            if same_text(earlier.title.as_str(), title.as_str()) {
                proof {
                    assert(self.models.value(j as int).title@ == title@);
                }
                return true;
            }
            j += 1;
        }
        false
    }

    /// Adds what is wrong with the `i`-th model.
    fn check_model(
        &self,
        paths: &ResolvedPaths,
        i: usize,
        file_is_there: bool,
        validation: &mut StartupValidation,
    )
        requires
            i < self.models.names().len(),
        ensures
            final(validation)@ == old(validation)@ + model_errors(
                *self,
                paths@.files_root,
                i as int,
                file_is_there,
            ),
    {
        let ghost start = validation@;
        let model_id = self.models.name_at(i);
        let model = self.models.value_at(i);
        if is_blank(model.title.as_str()) {
            validation.push(text3("model `", model_id.as_str(), "` must define a title"));
        }
        if self.repeats_title(i) {
            validation.push(text3("duplicate model title `", model.title.as_str(), "`"));
        }
        if model.runtimes.is_empty() {
            validation.push(
                text3("model `", model_id.as_str(), "` must declare at least one runtime mapping"),
            );
        }
        if !file_is_there {
            let file_path = paths.files_root.join_text(model.file.as_str());
            let shown = file_path.display();
            let head = text3("model `", model_id.as_str(), "` file is missing: ");
            validation.push(text2(head.as_str(), shown.as_str()));
        }
        if !model.runtimes.contains_key(model.default_runtime.as_str()) {
            validation.push(
                text5(
                    "model `",
                    model_id.as_str(),
                    "` references unknown default runtime `",
                    model.default_runtime.as_str(),
                    "` in its runtime mappings",
                ),
            );
        }
        let ghost head = validation@;
        let ghost f = |k: int|
            mapping_errors(
                self.runtimes,
                model_id@,
                model.runtimes.names()[k],
                model.runtimes.value(k),
            );
        let mut k: usize = 0;
        proof {
            assert(head + gathered(0, f) =~= head);
        }
        while k < model.runtimes.len()
            invariant
                k <= model.runtimes.names().len(),
                f == |k: int|
                    mapping_errors(
                        self.runtimes,
                        model_id@,
                        model.runtimes.names()[k],
                        model.runtimes.value(k),
                    ),
                validation@ == head + gathered(k as int, f),
            decreases model.runtimes.names().len() - k,
        {
            let ghost before = validation@;
            check_mapping(
                &self.runtimes,
                model_id.as_str(),
                model.runtimes.name_at(k).as_str(),
                model.runtimes.value_at(k),
                validation,
            );
            proof {
                assert(validation@ == before + f(k as int));
                assert(head + (gathered(k as int, f) + f(k as int)) =~= (head + gathered(
                    k as int,
                    f,
                )) + f(k as int));
            }
            k += 1;
        }
        proof {
            assert(head + gathered(k as int, f) =~= start + model_errors(
                *self,
                paths@.files_root,
                i as int,
                file_is_there,
            ));
        }
    }

    /// The files that the models need, in the order of the models.
    pub fn model_files(&self, paths: &ResolvedPaths) -> (r: Vec<UnixPath>)
        ensures
            r@.len() == self.models.names().len(),
            forall|i: int|
                0 <= i < r@.len() ==> (#[trigger] r@[i])@ == model_path(
                    paths@.files_root,
                    self.models.value(i),
                ),
    {
        let mut r: Vec<UnixPath> = Vec::new();
        let mut i: usize = 0;
        while i < self.models.len()
            invariant
                i <= self.models.names().len(),
                r@.len() == i,
                forall|k: int|
                    0 <= k < i ==> (#[trigger] r@[k])@ == model_path(
                        paths@.files_root,
                        self.models.value(k),
                    ),
            decreases self.models.names().len() - i,
        {
            let model = self.models.value_at(i);
            r.push(paths.files_root.join_text(model.file.as_str()));
            i += 1;
        }
        r
    }

    /// What is wrong with the configuration, given which of the models' files
    /// are there.
    pub fn validate(&self, paths: &ResolvedPaths, files_there: &Vec<bool>) -> (r: StartupValidation)
        requires
            files_there@.len() == self.models.names().len(),
        ensures
            r@ == config_errors(*self, paths@.files_root, files_there@),
    {
        let mut validation = StartupValidation::new();
        if self.config_version != CONFIG_VERSION {
            validation.push(
                text3(
                    "unsupported config_version ",
                    decimal_digits(self.config_version as u64).as_str(),
                    ", expected 1",
                ),
            );
        }
        if self.runtimes.is_empty() {
            validation.push("config must declare at least one runtime".to_owned());
        }
        if self.models.is_empty() {
            validation.push("config must declare at least one model".to_owned());
        }
        let ghost head = validation@;
        let ghost f = |i: int| runtime_errors(self.runtimes.names()[i], self.runtimes.value(i));
        let mut i: usize = 0;
        proof {
            assert(head + gathered(0, f) =~= head);
        }
        while i < self.runtimes.len()
            invariant
                i <= self.runtimes.names().len(),
                f == |i: int| runtime_errors(self.runtimes.names()[i], self.runtimes.value(i)),
                validation@ == head + gathered(i as int, f),
            decreases self.runtimes.names().len() - i,
        {
            let ghost before = validation@;
            check_runtime(
                self.runtimes.name_at(i).as_str(),
                self.runtimes.value_at(i),
                &mut validation,
            );
            proof {
                assert(validation@ == before + f(i as int));
                assert(head + (gathered(i as int, f) + f(i as int)) =~= (head + gathered(
                    i as int,
                    f,
                )) + f(i as int));
            }
            i += 1;
        }
        let ghost middle = validation@;
        let ghost root = paths@.files_root;
        let ghost g = |i: int| model_errors(*self, root, i, files_there@[i]);
        let mut k: usize = 0;
        proof {
            assert(middle + gathered(0, g) =~= middle);
        }
        while k < self.models.len()
            invariant
                k <= self.models.names().len(),
                files_there@.len() == self.models.names().len(),
                root == paths@.files_root,
                g == |i: int| model_errors(*self, root, i, files_there@[i]),
                validation@ == middle + gathered(k as int, g),
            decreases self.models.names().len() - k,
        {
            let ghost before = validation@;
            self.check_model(paths, k, files_there[k], &mut validation);
            proof {
                assert(validation@ == before + g(k as int));
                assert(middle + (gathered(k as int, g) + g(k as int)) =~= (middle + gathered(
                    k as int,
                    g,
                )) + g(k as int));
            }
            k += 1;
        }
        proof {
            assert(middle + gathered(k as int, g) =~= config_errors(*self, root, files_there@));
        }
        validation
    }
}

/// Why a model cannot be run as asked.
#[derive(Debug)]
pub enum BindError {
    /// The model has no mapping for the runtime.
    NoMapping { model_id: String, runtime_name: String },
    /// There is no such runtime.
    UnknownRuntime { runtime_name: String },
    /// The runtime has no such mode.
    UnknownMode { mode_name: String, runtime_name: String },
}

impl BindError {
    /// What a user is told.
    pub open spec fn text(self) -> Seq<char> {
        match self {
            BindError::NoMapping { model_id, runtime_name } => "model `"@ + model_id@
                + "` has no runtime mapping `"@ + runtime_name@ + "`"@,
            BindError::UnknownRuntime { runtime_name } => "unknown runtime `"@ + runtime_name@
                + "`"@,
            BindError::UnknownMode { mode_name, runtime_name } => "unknown mode `"@ + mode_name@
                + "` for runtime `"@ + runtime_name@ + "`"@,
        }
    }

    /// What a user is told.
    pub fn message(&self) -> (r: String)
        ensures
            r@ == self.text(),
    {
        match self {
            BindError::NoMapping { model_id, runtime_name } => text5(
                "model `",
                model_id.as_str(),
                "` has no runtime mapping `",
                runtime_name.as_str(),
                "`",
            ),
            BindError::UnknownRuntime { runtime_name } => text3(
                "unknown runtime `",
                runtime_name.as_str(),
                "`",
            ),
            BindError::UnknownMode { mode_name, runtime_name } => text5(
                "unknown mode `",
                mode_name.as_str(),
                "` for runtime `",
                runtime_name.as_str(),
                "`",
            ),
        }
    }
}

/// The name that is asked for where it is there, else the first, or nothing
/// where there is none.
pub open spec fn preferred<V>(map: NameMap<V>, wanted: Seq<char>) -> Seq<char> {
    if map.has(wanted) {
        wanted
    } else if map.names().len() > 0 {
        map.names()[0]
    } else {
        Seq::empty()
    }
}

/// The name that is asked for where it is there, else the first, or nothing
/// where there is none.
fn preferred_name<V>(map: &NameMap<V>, wanted: &String) -> (r: String)
    ensures
        r@ == preferred(*map, wanted@),
{
    if map.contains_key(wanted.as_str()) {
        return wanted.clone();
    }
    if map.is_empty() {
        let r = String::new();
        proof {
            assert(r@ =~= Seq::empty());
        }
        r
    } else {
        map.name_at(0).clone()
    }
}

/// Where there are names at all, the preferred one is among them.
pub proof fn preferred_is_there<V>(map: NameMap<V>, wanted: Seq<char>)
    requires
        map.names().len() > 0,
    ensures
        map.has(preferred(map, wanted)),
{
    assert(map.names().contains(map.names()[0]));
}

impl ModelConfig {
    /// The runtimes that can run the model.
    pub fn runtime_names(&self) -> (r: Vec<String>)
        ensures
            texts(r@) == self.runtimes.names(),
    {
        self.runtimes.name_list()
    }

    /// The runtime to begin with.
    pub fn default_runtime_name(&self) -> (r: String)
        ensures
            r@ == preferred(self.runtimes, self.default_runtime@),
    {
        preferred_name(&self.runtimes, &self.default_runtime)
    }
}

impl<'a> ModelRuntimeBinding<'a> {
    /// The modes of the runtime.
    pub fn mode_names(&self) -> (r: Vec<String>)
        ensures
            texts(r@) == self.runtime.modes.names(),
    {
        self.runtime.modes.name_list()
    }

    /// The mode to begin with.
    pub fn default_mode_name(&self) -> (r: String)
        ensures
            r@ == preferred(self.runtime.modes, self.model_runtime.default_mode@),
    {
        preferred_name(&self.runtime.modes, &self.model_runtime.default_mode)
    }

    /// A mode of the runtime, with what the model adds to it.
    pub fn bind_mode(&self, mode_name: &str) -> (r: Result<ModelModeBinding<'a>, BindError>)
        ensures
            r is Ok == self.runtime.modes.has(mode_name@),
            r matches Ok(binding) ==> {
                &&& *binding.mode == self.runtime.modes.at(mode_name@)
                &&& binding.model_override is Some == self.model_runtime.modes.has(mode_name@)
                &&& binding.model_override matches Some(changes) ==> *changes
                    == self.model_runtime.modes.at(mode_name@)
            },
            r matches Err(error) ==> {
                &&& error is UnknownMode
                &&& error->UnknownMode_mode_name@ == mode_name@
                &&& error->UnknownMode_runtime_name@ == self.runtime_name@
            },
    {
        match self.runtime.modes.get(mode_name) {
            Some(mode) => Ok(
                ModelModeBinding { mode, model_override: self.model_runtime.modes.get(mode_name) },
            ),
            None => Err(
                BindError::UnknownMode {
                    mode_name: mode_name.to_owned(),
                    runtime_name: self.runtime_name.clone(),
                },
            ),
        }
    }
}

impl AppConfig {
    /// A runtime, with what the model adds to it.
    pub fn bind_runtime<'a>(
        &'a self,
        model_id: &str,
        model: &'a ModelConfig,
        runtime_name: &str,
    ) -> (r: Result<ModelRuntimeBinding<'a>, BindError>)
        ensures
            r is Ok == (model.runtimes.has(runtime_name@) && self.runtimes.has(runtime_name@)),
            r matches Ok(binding) ==> {
                &&& binding.runtime_name@ == runtime_name@
                &&& *binding.runtime == self.runtimes.at(runtime_name@)
                &&& *binding.model_runtime == model.runtimes.at(runtime_name@)
            },
            r matches Err(error) ==> if model.runtimes.has(runtime_name@) {
                &&& error is UnknownRuntime
                &&& error->UnknownRuntime_runtime_name@ == runtime_name@
            } else {
                &&& error is NoMapping
                &&& error->model_id@ == model_id@
                &&& error->NoMapping_runtime_name@ == runtime_name@
            },
    {
        let model_runtime = match model.runtimes.get(runtime_name) {
            Some(model_runtime) => model_runtime,
            None => return Err(
                BindError::NoMapping {
                    model_id: model_id.to_owned(),
                    runtime_name: runtime_name.to_owned(),
                },
            ),
        };
        let runtime = match self.runtimes.get(runtime_name) {
            Some(runtime) => runtime,
            None => return Err(
                BindError::UnknownRuntime { runtime_name: runtime_name.to_owned() },
            ),
        };
        Ok(ModelRuntimeBinding { runtime_name: runtime_name.to_owned(), runtime, model_runtime })
    }

    /// Whether the model can be run by the runtime in the mode.
    pub open spec fn binds(
        self,
        model: ModelConfig,
        runtime_name: Seq<char>,
        mode_name: Seq<char>,
    ) -> bool {
        &&& model.runtimes.has(runtime_name)
        &&& self.runtimes.has(runtime_name)
        &&& self.runtimes.at(runtime_name).modes.has(mode_name)
    }

    /// What a user is told where the model cannot be run as asked.
    pub open spec fn bind_error_text(
        self,
        model_id: Seq<char>,
        model: ModelConfig,
        runtime_name: Seq<char>,
        mode_name: Seq<char>,
    ) -> Seq<char> {
        if !model.runtimes.has(runtime_name) {
            "model `"@ + model_id + "` has no runtime mapping `"@ + runtime_name + "`"@
        } else if !self.runtimes.has(runtime_name) {
            "unknown runtime `"@ + runtime_name + "`"@
        } else {
            "unknown mode `"@ + mode_name + "` for runtime `"@ + runtime_name + "`"@
        }
    }

    /// A runtime and one of its modes, with what the model adds to them.
    pub fn bind_mode<'a>(
        &'a self,
        model_id: &str,
        model: &'a ModelConfig,
        runtime_name: &str,
        mode_name: &str,
    ) -> (r: Result<ResolvedModeBinding<'a>, BindError>)
        ensures
            r is Ok == self.binds(*model, runtime_name@, mode_name@),
            r matches Ok(binding) ==> binding.choice() == chosen(
                *self,
                *model,
                runtime_name@,
                mode_name@,
            ),
            r matches Err(error) ==> error.text() == self.bind_error_text(
                model_id@,
                *model,
                runtime_name@,
                mode_name@,
            ),
    {
        let runtime = match self.bind_runtime(model_id, model, runtime_name) {
            Ok(runtime) => runtime,
            Err(error) => return Err(error),
        };
        let mode = match runtime.bind_mode(mode_name) {
            Ok(mode) => mode,
            Err(error) => return Err(error),
        };
        Ok(ResolvedModeBinding { runtime, mode })
    }
}

/// A runtime and one of its modes, with what a model adds to them.
pub struct ModeChoice {
    pub runtime_name: Seq<char>,
    pub runtime: RuntimeConfig,
    pub mapping: ModelRuntimeConfig,
    pub mode: ModeConfig,
    pub changes: Option<ModelModeOverride>,
}

/// The runtime and the mode of the given names, for a model.
pub open spec fn chosen(
    config: AppConfig,
    model: ModelConfig,
    runtime_name: Seq<char>,
    mode_name: Seq<char>,
) -> ModeChoice {
    let runtime = config.runtimes.at(runtime_name);
    let mapping = model.runtimes.at(runtime_name);
    ModeChoice {
        runtime_name,
        runtime,
        mapping,
        mode: runtime.modes.at(mode_name),
        changes: if mapping.modes.has(mode_name) {
            Some(mapping.modes.at(mode_name))
        } else {
            None
        },
    }
}

impl<'a> ResolvedModeBinding<'a> {
    /// What the binding holds.
    pub open spec fn choice(self) -> ModeChoice {
        ModeChoice {
            runtime_name: self.runtime.runtime_name@,
            runtime: *self.runtime.runtime,
            mapping: *self.runtime.model_runtime,
            mode: *self.mode.mode,
            changes: match self.mode.model_override {
                Some(changes) => Some(*changes),
                None => None,
            },
        }
    }

    /// Whether the mode takes input.
    pub fn interactive(&self) -> (r: bool)
        ensures
            r == self.mode.mode.interactive,
    {
        self.mode.mode.interactive
    }

    /// The program of the mode.
    pub fn executable(&self) -> (r: &String)
        ensures
            r == self.mode.mode.executable,
    {
        &self.mode.mode.executable
    }

    /// The arguments of the mode.
    pub fn mode_args(&self) -> (r: &Vec<String>)
        ensures
            r == self.mode.mode.args,
    {
        &self.mode.mode.args
    }

    /// The arguments that the model adds to the runtime.
    pub fn runtime_args(&self) -> (r: &Vec<String>)
        ensures
            r == self.runtime.model_runtime.args,
    {
        &self.runtime.model_runtime.args
    }

    /// The argument that comes before the path of the model.
    pub fn model_arg(&self) -> (r: &String)
        ensures
            r == self.runtime.runtime.model_arg,
    {
        &self.runtime.runtime.model_arg
    }

    /// The environment that the model adds to the runtime.
    pub fn runtime_env(&self) -> (r: &NameMap<String>)
        ensures
            r == self.runtime.model_runtime.env,
    {
        &self.runtime.model_runtime.env
    }

    /// What the model adds to the mode.
    pub fn mode_override(&self) -> (r: Option<&'a ModelModeOverride>)
        ensures
            r == self.mode.model_override,
    {
        self.mode.model_override
    }
}

/// What came of reading the configuration file.
pub enum ConfigRead {
    /// The file could not be read.
    Unreadable,
    /// The file is not in the expected form.
    Invalid,
    /// What the file says.
    Parsed(AppConfig),
}

impl AppConfig {
    /// The configuration that was read, or why there is none.
    pub fn load(paths: &ResolvedPaths, read: ConfigRead) -> (r: Result<Self, StartupError>)
        ensures
            match read {
                ConfigRead::Parsed(config) => r == Ok::<AppConfig, StartupError>(config),
                ConfigRead::Invalid => r is Err && r->Err_0 is ConfigInvalid,
                ConfigRead::Unreadable => r is Err && r->Err_0 is ConfigUnreadable
                    && r->Err_0->path@ == paths@.config_path,
            },
    {
        match read {
            ConfigRead::Parsed(config) => Ok(config),
            ConfigRead::Invalid => Err(StartupError::ConfigInvalid),
            ConfigRead::Unreadable => Err(
                StartupError::ConfigUnreadable { path: paths.config_path.clone() },
            ),
        }
    }
}

/// Whether a runtime is as it has to be.
pub open spec fn runtime_valid(runtime: RuntimeConfig) -> bool {
    &&& is_option(runtime.model_arg@)
    &&& runtime.modes.names().len() > 0
    &&& forall|i: int|
        0 <= i < runtime.modes.names().len() ==> !blank(
            (#[trigger] runtime.modes.value(i)).executable@,
        )
}

/// Whether a runtime can run a model as the mapping says.
pub open spec fn mapping_valid(
    runtimes: NameMap<RuntimeConfig>,
    runtime_name: Seq<char>,
    mapping: ModelRuntimeConfig,
) -> bool {
    &&& runtimes.has(runtime_name)
    &&& runtimes.at(runtime_name).modes.has(mapping.default_mode@)
    &&& forall|i: int|
        0 <= i < mapping.modes.names().len() ==> runtimes.at(runtime_name).modes.has(
            #[trigger] mapping.modes.names()[i],
        )
}

/// Whether a model is as it has to be, but for its title's being its own.
pub open spec fn model_valid(runtimes: NameMap<RuntimeConfig>, model: ModelConfig) -> bool {
    &&& !blank(model.title@)
    &&& model.runtimes.has(model.default_runtime@)
    &&& forall|k: int|
        0 <= k < model.runtimes.names().len() ==> mapping_valid(
            runtimes,
            #[trigger] model.runtimes.names()[k],
            model.runtimes.value(k),
        )
}

/// Whether a configuration is as it has to be.
pub open spec fn config_valid(config: AppConfig, files_there: Seq<bool>) -> bool {
    &&& config.config_version == CONFIG_VERSION
    &&& config.runtimes.names().len() > 0
    &&& config.models.names().len() > 0
    &&& forall|i: int|
        0 <= i < config.runtimes.names().len() ==> runtime_valid(
            #[trigger] config.runtimes.value(i),
        )
    &&& forall|i: int|
        0 <= i < config.models.names().len() ==> model_valid(
            config.runtimes,
            #[trigger] config.models.value(i),
        )
    &&& forall|i: int| 0 <= i < config.models.names().len() ==> #[trigger] files_there[i]
    &&& forall|i: int, j: int|
        0 <= i < j < config.models.names().len() ==> (#[trigger] config.models.value(i)).title@ != (
        #[trigger] config.models.value(j)).title@
}

proof fn runtime_errors_tell(name: Seq<char>, runtime: RuntimeConfig)
    ensures
        runtime_errors(name, runtime).len() == 0 <==> runtime_valid(runtime),
{
    let f = |i: int| mode_errors(name, runtime.modes.names()[i], runtime.modes.value(i));
    let n = runtime.modes.names().len() as int;
    nothing_is_gathered(n, f);
    if runtime_valid(runtime) {
        assert forall|i: int| 0 <= i < n implies (#[trigger] f(i)).len() == 0 by {
            assert(!blank(runtime.modes.value(i).executable@));
        }
    }
    if runtime_errors(name, runtime).len() == 0 {
        assert forall|i: int| 0 <= i < n implies !blank(
            (#[trigger] runtime.modes.value(i)).executable@,
        ) by {
            assert(f(i).len() == 0);
        }
    }
}

proof fn mapping_errors_tell(
    runtimes: NameMap<RuntimeConfig>,
    model_id: Seq<char>,
    runtime_name: Seq<char>,
    mapping: ModelRuntimeConfig,
)
    ensures
        mapping_errors(runtimes, model_id, runtime_name, mapping).len() == 0 <==> mapping_valid(
            runtimes,
            runtime_name,
            mapping,
        ),
{
    if runtimes.has(runtime_name) {
        let runtime = runtimes.at(runtime_name);
        let f = |i: int| override_errors(model_id, runtime_name, runtime, mapping.modes.names()[i]);
        let n = mapping.modes.names().len() as int;
        nothing_is_gathered(n, f);
        if mapping_valid(runtimes, runtime_name, mapping) {
            assert forall|i: int| 0 <= i < n implies (#[trigger] f(i)).len() == 0 by {
                assert(runtime.modes.has(mapping.modes.names()[i]));
            }
        }
        if mapping_errors(runtimes, model_id, runtime_name, mapping).len() == 0 {
            assert forall|i: int| 0 <= i < n implies runtime.modes.has(
                #[trigger] mapping.modes.names()[i],
            ) by {
                assert(f(i).len() == 0);
            }
        }
    }
}

proof fn model_errors_tell(config: AppConfig, files_root: Seq<u8>, i: int, file_is_there: bool)
    requires
        0 <= i < config.models.names().len(),
    ensures
        model_errors(config, files_root, i, file_is_there).len() == 0 <==> {
            &&& model_valid(config.runtimes, config.models.value(i))
            &&& file_is_there
            &&& !title_repeated(config.models, i)
        },
{
    let id = config.models.names()[i];
    let model = config.models.value(i);
    let f = |k: int|
        mapping_errors(config.runtimes, id, model.runtimes.names()[k], model.runtimes.value(k));
    let n = model.runtimes.names().len() as int;
    nothing_is_gathered(n, f);
    assert forall|k: int| 0 <= k < n implies ((#[trigger] f(k)).len() == 0 <==> mapping_valid(
        config.runtimes,
        model.runtimes.names()[k],
        model.runtimes.value(k),
    )) by {
        mapping_errors_tell(config.runtimes, id, model.runtimes.names()[k], model.runtimes.value(k));
    }
    if model_errors(config, files_root, i, file_is_there).len() == 0 {
        assert forall|k: int| 0 <= k < n implies mapping_valid(
            config.runtimes,
            #[trigger] model.runtimes.names()[k],
            model.runtimes.value(k),
        ) by {
            assert(f(k).len() == 0);
        }
    }
    if model.runtimes.has(model.default_runtime@) {
        assert(model.runtimes.names().len() > 0);
    }
    if model_valid(config.runtimes, model) {
        assert forall|k: int| 0 <= k < n implies (#[trigger] f(k)).len() == 0 by {
            assert(mapping_valid(
                config.runtimes,
                model.runtimes.names()[k],
                model.runtimes.value(k),
            ));
        }
    }
}

/// No error is reported of a configuration if and only if it is as it has to
/// be.
pub proof fn errors_tell_validity(config: AppConfig, files_root: Seq<u8>, files_there: Seq<bool>)
    ensures
        config_errors(config, files_root, files_there).len() == 0 <==> config_valid(
            config,
            files_there,
        ),
{
    let f = |i: int| runtime_errors(config.runtimes.names()[i], config.runtimes.value(i));
    let g = |i: int| model_errors(config, files_root, i, files_there[i]);
    let n = config.runtimes.names().len() as int;
    let m = config.models.names().len() as int;
    nothing_is_gathered(n, f);
    nothing_is_gathered(m, g);
    assert forall|i: int| 0 <= i < n implies ((#[trigger] f(i)).len() == 0 <==> runtime_valid(
        config.runtimes.value(i),
    )) by {
        runtime_errors_tell(config.runtimes.names()[i], config.runtimes.value(i));
    }
    assert forall|i: int| 0 <= i < m implies ((#[trigger] g(i)).len() == 0 <==> {
        &&& model_valid(config.runtimes, config.models.value(i))
        &&& files_there[i]
        &&& !title_repeated(config.models, i)
    }) by {
        model_errors_tell(config, files_root, i, files_there[i]);
    }
    if config_errors(config, files_root, files_there).len() == 0 {
        assert forall|i: int| 0 <= i < n implies runtime_valid(
            #[trigger] config.runtimes.value(i),
        ) by {
            assert(f(i).len() == 0);
        }
        assert forall|i: int| 0 <= i < m implies model_valid(
            config.runtimes,
            #[trigger] config.models.value(i),
        ) by {
            assert(g(i).len() == 0);
        }
        assert forall|i: int| 0 <= i < m implies #[trigger] files_there[i] by {
            assert(g(i).len() == 0);
        }
        assert forall|i: int, j: int| 0 <= i < j < m implies (#[trigger] config.models.value(
            i,
        )).title@ != (#[trigger] config.models.value(j)).title@ by {
            assert(g(j).len() == 0);
        }
    }
    if config_valid(config, files_there) {
        assert forall|i: int| 0 <= i < n implies (#[trigger] f(i)).len() == 0 by {
            assert(runtime_valid(config.runtimes.value(i)));
        }
        assert forall|i: int| 0 <= i < m implies (#[trigger] g(i)).len() == 0 by {
            assert(model_valid(config.runtimes, config.models.value(i)));
            assert(files_there[i]);
        }
    }
}

/// Every model of a valid configuration can be run by each of its runtimes, in
/// the default mode of that.
pub proof fn valid_config_runs_every_mapping(
    config: AppConfig,
    files_there: Seq<bool>,
    i: int,
    runtime_name: Seq<char>,
)
    requires
        config_valid(config, files_there),
        config.models.value(i).runtimes.wf(),
        0 <= i < config.models.names().len(),
        config.models.value(i).runtimes.has(runtime_name),
    ensures
        ({
            let model = config.models.value(i);
            let mapping = model.runtimes.at(runtime_name);
            let mode_name = preferred(
                config.runtimes.at(runtime_name).modes,
                mapping.default_mode@,
            );
            &&& mode_name == mapping.default_mode@
            &&& config.binds(model, runtime_name, mode_name)
        }),
{
    let model = config.models.value(i);
    assert(model_valid(config.runtimes, model));
    let k = model.runtimes.names().index_of(runtime_name);
    model.runtimes.name_is_unique(k);
    assert(mapping_valid(
        config.runtimes,
        model.runtimes.names()[k],
        model.runtimes.value(k),
    ));
}

/// Every model of a valid configuration can be run by its default runtime, in
/// the default mode of that.
pub proof fn valid_config_runs_every_model(config: AppConfig, files_there: Seq<bool>, i: int)
    requires
        config_valid(config, files_there),
        config.models.value(i).runtimes.wf(),
        0 <= i < config.models.names().len(),
    ensures
        ({
            let model = config.models.value(i);
            let runtime_name = preferred(model.runtimes, model.default_runtime@);
            let runtime = config.runtimes.at(runtime_name);
            let mapping = model.runtimes.at(runtime_name);
            let mode_name = preferred(runtime.modes, mapping.default_mode@);
            &&& runtime_name == model.default_runtime@
            &&& mode_name == mapping.default_mode@
            &&& config.binds(model, runtime_name, mode_name)
        }),
{
    let model = config.models.value(i);
    assert(model_valid(config.runtimes, model));
    valid_config_runs_every_mapping(config, files_there, i, model.default_runtime@);
}

} // verus!
