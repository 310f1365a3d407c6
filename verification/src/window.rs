//! The window: which models run, what is selected, and what the controls of a
//! model show.
use vstd::prelude::*;

use crate::config::{chosen, preferred, AppConfig, ModelConfig};
use crate::ipc::ClientMessage;
use crate::launch::{command_of, env_of, preview_of, LaunchPlan, ProcessEvent};
use crate::startup::{Alert, AppContext};
use crate::text::{blank, from_chars, is_blank, same_text, starts_with, text2, text3, texts, to_chars};

verus! {

/// How many models run.
pub struct AppState {
    running_count: u32,
}

impl AppState {
    pub closed spec fn running(self) -> int {
        self.running_count as int
    }

    /// No model runs.
    pub fn new() -> (r: Self)
        ensures
            r.running() == 0,
    {
        AppState { running_count: 0 }
    }

    /// Whether a model runs.
    pub fn has_running_models(&self) -> (r: bool)
        ensures
            r == (self.running() > 0),
    {
        self.running_count > 0
    }

    /// One model more runs.
    pub fn mark_process_started(&mut self)
        ensures
            final(self).running() == one_more(old(self).running()),
    {
        if self.running_count < u32::MAX {
            self.running_count += 1;
        }
    }

    /// One model less runs.
    pub fn mark_process_stopped(&mut self)
        ensures
            final(self).running() == one_less(old(self).running()),
    {
        if self.running_count > 0 {
            self.running_count -= 1;
        }
    }

    /// Why the window is not to be closed, if it is not.
    pub fn close_request(&self) -> (r: Option<Alert>)
        ensures
            r is Some == (self.running() > 0),
            r is None == may_close(self.running()),
            r matches Some(alert) ==> {
                &&& alert.heading@ == "Stop all models before closing"@
                &&& alert.body@
                    == "At least one model is still running. Stop every running model, then close the application again."@
            },
    {
        if !self.has_running_models() {
            return None;
        }
        Some(
            Alert {
                heading: "Stop all models before closing",
                body: "At least one model is still running. Stop every running model, then close the application again.".to_owned(),
            },
        )
    }
}

/// One more than `n`, up to the largest number.
pub open spec fn one_more(n: int) -> int {
    if n < u32::MAX {
        n + 1
    } else {
        n
    }
}

/// One less than `n`, down to zero.
pub open spec fn one_less(n: int) -> int {
    if n > 0 {
        n - 1
    } else {
        n
    }
}

/// How many of the models run.
pub open spec fn number_running(models: Seq<bool>) -> int
    decreases models.len(),
{
    if models.len() == 0 {
        0
    } else {
        number_running(models.drop_last()) + if models.last() {
            1int
        } else {
            0
        }
    }
}

proof fn running_after_change(models: Seq<bool>, i: int, running: bool)
    requires
        0 <= i < models.len(),
    ensures
        number_running(models.update(i, running)) == number_running(models) + (if running {
            1int
        } else {
            0
        }) - (if models[i] {
            1int
        } else {
            0
        }),
    decreases models.len(),
{
    let changed = models.update(i, running);
    if i == models.len() - 1 {
        assert(changed.drop_last() =~= models.drop_last());
    } else {
        assert(changed.drop_last() =~= models.drop_last().update(i, running));
        running_after_change(models.drop_last(), i, running);
    }
}

proof fn running_bounds(models: Seq<bool>)
    ensures
        0 <= number_running(models) <= models.len(),
        number_running(models) > 0 <==> exists|i: int| 0 <= i < models.len() && #[trigger] models[i],
    decreases models.len(),
{
    if models.len() > 0 {
        let init = models.drop_last();
        running_bounds(init);
        if number_running(init) > 0 {
            let i = choose|i: int| 0 <= i < init.len() && #[trigger] init[i];
            assert(models[i]);
        }
        if exists|i: int| 0 <= i < models.len() && #[trigger] models[i] {
            let i = choose|i: int| 0 <= i < models.len() && #[trigger] models[i];
            if i < init.len() {
                assert(init[i]);
            }
        }
        if models.last() {
            assert(models[models.len() - 1]);
        }
    }
}

/// Counting one more for each model that starts, and one less for each that
/// stops, gives the number of the models that run.
pub proof fn count_is_the_number_running(models: Seq<bool>, i: int)
    requires
        0 <= i < models.len(),
        models.len() <= u32::MAX,
    ensures
        !models[i] ==> one_more(number_running(models)) == number_running(models.update(i, true)),
        models[i] ==> one_less(number_running(models)) == number_running(models.update(i, false)),
{
    running_after_change(models, i, true);
    running_after_change(models, i, false);
    running_bounds(models);
    running_bounds(models.update(i, true));
}

/// There is a number of running models other than zero if and only if a model
/// runs.
pub proof fn count_tells_whether_any_runs(models: Seq<bool>)
    ensures
        number_running(models) > 0 <==> exists|i: int| 0 <= i < models.len() && #[trigger] models[i],
{
    running_bounds(models);
}

/// The first place of `target` in a list.
pub open spec fn position(items: Seq<Seq<char>>, target: Seq<char>) -> Option<int>
    decreases items.len(),
{
    if items.len() == 0 {
        None
    } else {
        match position(items.drop_last(), target) {
            Some(i) => Some(i),
            None => if items.last() == target {
                Some(items.len() - 1)
            } else {
                None
            },
        }
    }
}

/// The first place of `target` is one where it stands and before which it does
/// not; there is none where it is not in the list.
pub proof fn position_is_first(items: Seq<Seq<char>>, target: Seq<char>)
    ensures
        position(items, target) is Some <==> items.contains(target),
        position(items, target) matches Some(i) ==> {
            &&& 0 <= i < items.len()
            &&& items[i] == target
            &&& forall|j: int| 0 <= j < i ==> #[trigger] items[j] != target
        },
    decreases items.len(),
{
    if items.len() > 0 {
        let init = items.drop_last();
        position_is_first(init, target);
        if init.contains(target) {
            let i = position(init, target)->Some_0;
            assert(items[i] == target);
            assert forall|j: int| 0 <= j < i implies #[trigger] items[j] != target by {
                assert(items[j] == init[j]);
            }
        } else {
            assert forall|j: int| 0 <= j < init.len() implies #[trigger] items[j] != target by {
                assert(items[j] == init[j]);
                assert(init.contains(init[j]));
            }
            if items.last() == target {
                assert(items[items.len() - 1] == target);
            }
        }
    }
}

/// The first place of `target` in a list.
pub fn index_of(items: &Vec<String>, target: &str) -> (r: Option<usize>)
    ensures
        r is Some == position(texts(items@), target@) is Some,
        r matches Some(i) ==> position(texts(items@), target@) == Some(i as int),
{
    let ghost all = texts(items@);
    let mut i: usize = 0;
    proof {
        assert(all.take(0) =~= Seq::empty());
    }
    while i < items.len()
        invariant
            i <= items@.len(),
            all == texts(items@),
            position(all.take(i as int), target@) is None,
        decreases items.len() - i,
    {
        proof {
            assert(all.take(i + 1).drop_last() =~= all.take(i as int));
            assert(all.take(i + 1).last() == items@[i as int]@);
        }
        if same_text(items[i].as_str(), target) {
            proof {
                later_items_do_not_matter(all, i + 1, target@);
            }
            return Some(i);
        }
        i += 1;
    }
    proof {
        assert(all.take(i as int) =~= all);
    }
    None
}

proof fn later_items_do_not_matter(items: Seq<Seq<char>>, n: int, target: Seq<char>)
    requires
        0 <= n <= items.len(),
        position(items.take(n), target) is Some,
    ensures
        position(items, target) == position(items.take(n), target),
    decreases items.len(),
{
    if n < items.len() {
        assert(items.drop_last().take(n) =~= items.take(n));
        later_items_do_not_matter(items.drop_last(), n, target);
    } else {
        assert(items.take(n) =~= items);
    }
}

/// The name of the row of a model.
pub open spec fn row_name(model_id: Seq<char>) -> Seq<char> {
    "model-row-"@ + model_id
}

/// The name of the row of a model.
pub fn model_row_name(model_id: &str) -> (r: String)
    ensures
        r@ == row_name(model_id@),
{
    text2("model-row-", model_id)
}

/// The model whose row has the given name.
pub fn model_of_row(name: &str) -> (r: Option<String>)
    ensures
        r is Some == "model-row-"@.is_prefix_of(name@),
        r matches Some(id) ==> name@ == row_name(id@),
{
    if !starts_with(name, "model-row-") {
        return None;
    }
    let chars = to_chars(name);
    let prefix = to_chars("model-row-");
    let id = from_chars(&chars, prefix.len(), chars.len());
    proof {
        assert(name@ =~= "model-row-"@ + id@);
    }
    Some(id)
}

/// The name of a row tells its model.
pub proof fn row_tells_its_model(model_id: Seq<char>, other: Seq<char>)
    ensures
        "model-row-"@.is_prefix_of(row_name(model_id)),
        row_name(model_id) == row_name(other) ==> model_id == other,
{
    let head = "model-row-"@;
    assert(row_name(model_id).take(head.len() as int) =~= head);
    assert(row_name(model_id).skip(head.len() as int) =~= model_id);
    assert(row_name(other).skip(head.len() as int) =~= other);
}

/// The modes that can be chosen, and the one to begin with.
pub struct ModeChoices {
    pub names: Vec<String>,
    pub selected: String,
}

/// The modes that can be chosen with a runtime: none where the runtime cannot
/// run the model.
pub open spec fn choice_names(config: AppConfig, model: ModelConfig, runtime: Seq<char>) -> Seq<
    Seq<char>,
> {
    if model.runtimes.has(runtime) && config.runtimes.has(runtime) {
        config.runtimes.at(runtime).modes.names()
    } else {
        Seq::empty()
    }
}

/// The mode to begin with: none where the runtime cannot run the model.
pub open spec fn choice_selected(
    config: AppConfig,
    model: ModelConfig,
    runtime: Seq<char>,
) -> Seq<char> {
    if model.runtimes.has(runtime) && config.runtimes.has(runtime) {
        preferred(
            config.runtimes.at(runtime).modes,
            model.runtimes.at(runtime).default_mode@,
        )
    } else {
        Seq::empty()
    }
}

/// The modes that can be chosen with a runtime, and the one to begin with.
pub fn resolve_mode_choices(
    config: &AppConfig,
    model_id: &str,
    model: &ModelConfig,
    runtime_name: &str,
) -> (r: ModeChoices)
    ensures
        texts(r.names@) == choice_names(*config, *model, runtime_name@),
        r.selected@ == choice_selected(*config, *model, runtime_name@),
{
    match config.bind_runtime(model_id, model, runtime_name) {
        Ok(binding) => ModeChoices {
            names: binding.mode_names(),
            selected: binding.default_mode_name(),
        },
        Err(_) => {
            let r = ModeChoices { names: Vec::new(), selected: String::new() };
            proof {
                assert(texts(r.names@) =~= Seq::empty());
                assert(r.selected@ =~= Seq::empty());
            }
            r
        },
    }
}

/// The runtimes that can be chosen, and the place of the one to begin with.
pub struct RuntimeChoices {
    pub names: Vec<String>,
    pub index: usize,
}

/// The runtimes that can be chosen for a model, and the place of the one to
/// begin with; the first where there is none.
pub fn resolve_runtime_choices(model: &ModelConfig) -> (r: RuntimeChoices)
    ensures
        texts(r.names@) == model.runtimes.names(),
        r.index == index_or_first(
            model.runtimes.names(),
            preferred(model.runtimes, model.default_runtime@),
        ),
        model.runtimes.has(model.default_runtime@) ==> r.index < r.names@.len()
            && r.names@[r.index as int]@ == model.default_runtime@,
        !model.runtimes.has(model.default_runtime@) ==> r.index == 0,
{
    let names = model.runtime_names();
    let selected = model.default_runtime_name();
    proof {
        position_is_first(texts(names@), selected@);
        if !model.runtimes.has(model.default_runtime@) && names@.len() > 0 {
            let first = texts(names@)[0];
            assert(texts(names@).contains(first));
        }
    }
    let index = match index_of(&names, selected.as_str()) {
        Some(i) => i,
        None => 0,
    };
    RuntimeChoices { names, index }
}

/// The runtime and the mode that are selected for a model.
#[derive(Debug, Clone)]
pub struct ModelSelection {
    pub runtime_name: String,
    pub mode_name: String,
}

impl ModelSelection {
    pub fn new(runtime_name: String, mode_name: String) -> (r: Self)
        ensures
            r.runtime_name == runtime_name,
            r.mode_name == mode_name,
    {
        ModelSelection { runtime_name, mode_name }
    }
}

/// What the controls of a model show.
pub struct ModelControls {
    pub start_enabled: bool,
    pub stop_enabled: bool,
    /// Whether another runtime or mode can be chosen.
    pub choices_enabled: bool,
    pub input_enabled: bool,
    pub icon: &'static str,
    pub command_label: String,
    pub mode_names: Vec<String>,
    pub mode_index: usize,
}

/// What controls show.
pub struct ControlsView {
    pub start_enabled: bool,
    pub stop_enabled: bool,
    pub choices_enabled: bool,
    pub input_enabled: bool,
    pub icon: Seq<char>,
    pub command_label: Seq<char>,
    pub mode_names: Seq<Seq<char>>,
    pub mode_index: int,
}

impl View for ModelControls {
    type V = ControlsView;

    open spec fn view(&self) -> ControlsView {
        ControlsView {
            start_enabled: self.start_enabled,
            stop_enabled: self.stop_enabled,
            choices_enabled: self.choices_enabled,
            input_enabled: self.input_enabled,
            icon: self.icon@,
            command_label: self.command_label@,
            mode_names: texts(self.mode_names@),
            mode_index: self.mode_index as int,
        }
    }
}

/// The icon of a model that runs or does not.
pub open spec fn icon_of(running: bool) -> Seq<char> {
    if running {
        "media-playback-start-symbolic"@
    } else {
        "media-playback-stop-symbolic"@
    }
}

/// The icon of a model that runs or does not.
pub fn status_icon(running: bool) -> (r: &'static str)
    ensures
        r@ == icon_of(running),
{
    if running {
        "media-playback-start-symbolic"
    } else {
        "media-playback-stop-symbolic"
    }
}

/// What is known of a model in the window.
pub struct RuntimeView {
    pub model_id: Seq<char>,
    pub runtime_name: Seq<char>,
    pub mode_name: Seq<char>,
    pub running: bool,
    pub controls: ControlsView,
}

/// What is shown of the command that would be run.
pub open spec fn command_label(
    context: AppContext,
    model_id: Seq<char>,
    model: ModelConfig,
    runtime_name: Seq<char>,
    mode_name: Seq<char>,
) -> Seq<char> {
    if context.config.binds(model, runtime_name, mode_name) {
        preview_of(
            model_id,
            runtime_name,
            mode_name,
            command_of(
                context.paths@,
                model,
                chosen(context.config, model, runtime_name, mode_name),
            ),
        )
    } else {
        "Config error: "@ + context.config.bind_error_text(
            model_id,
            model,
            runtime_name,
            mode_name,
        )
    }
}

/// Whether the mode that is selected takes input.
pub open spec fn takes_input(
    config: AppConfig,
    model: ModelConfig,
    runtime_name: Seq<char>,
    mode_name: Seq<char>,
) -> bool {
    config.binds(model, runtime_name, mode_name) && chosen(
        config,
        model,
        runtime_name,
        mode_name,
    ).mode.interactive
}

/// The place of the mode in the list, or the first.
pub open spec fn index_or_first(items: Seq<Seq<char>>, target: Seq<char>) -> int {
    match position(items, target) {
        Some(i) => i,
        None => 0,
    }
}

impl RuntimeView {
    /// With the mode `mode_name` selected.
    pub open spec fn with_mode(
        self,
        context: AppContext,
        model: ModelConfig,
        mode_name: Seq<char>,
    ) -> RuntimeView {
        RuntimeView {
            mode_name,
            controls: ControlsView {
                command_label: command_label(
                    context,
                    self.model_id,
                    model,
                    self.runtime_name,
                    mode_name,
                ),
                input_enabled: self.running && takes_input(
                    context.config,
                    model,
                    self.runtime_name,
                    mode_name,
                ),
                ..self.controls
            },
            ..self
        }
    }

    /// With the runtime `runtime_name` selected, and the mode to begin with.
    pub open spec fn with_runtime(
        self,
        context: AppContext,
        model: ModelConfig,
        runtime_name: Seq<char>,
    ) -> RuntimeView {
        let names = choice_names(context.config, model, runtime_name);
        let selected = choice_selected(context.config, model, runtime_name);
        RuntimeView {
            runtime_name,
            controls: ControlsView {
                mode_names: names,
                mode_index: index_or_first(names, selected),
                ..self.controls
            },
            ..self
        }.with_mode(context, model, selected)
    }

    /// After the model has been started or has ended.
    pub open spec fn with_running(self, running: bool, interactive: bool) -> RuntimeView {
        RuntimeView {
            running,
            controls: ControlsView {
                start_enabled: !running,
                stop_enabled: running,
                choices_enabled: !running,
                icon: icon_of(running),
                input_enabled: running && interactive,
                ..self.controls
            },
            ..self
        }
    }

    /// The controls fit the state: a model that runs can be stopped and nothing
    /// else, and only such a one takes input.
    pub open spec fn fits(self) -> bool {
        &&& self.controls.start_enabled == !self.running
        &&& self.controls.stop_enabled == self.running
        &&& self.controls.choices_enabled == !self.running
        &&& self.controls.icon == icon_of(self.running)
        &&& self.controls.input_enabled ==> self.running
    }
}

/// Whatever is selected, started or ended, the controls fit the state.
pub proof fn controls_always_fit(
    v: RuntimeView,
    context: AppContext,
    model: ModelConfig,
    name: Seq<char>,
    running: bool,
    interactive: bool,
)
    requires
        v.fits(),
    ensures
        v.with_runtime(context, model, name).fits(),
        v.with_mode(context, model, name).fits(),
        v.with_running(running, interactive).fits(),
{
}

/// A text with its heading, as it is shown for a short time.
pub fn toast_text(heading: &str, body: &str) -> (r: String)
    ensures
        r@ == heading@ + ": "@ + body@,
{
    text3(heading, ": ", body)
}

/// What is done when a model is to be started.
pub enum StartAction {
    /// Nothing: it runs already.
    Nothing,
    /// The console is cleared, and the user is told why it cannot be started.
    Refuse(String),
    /// The console is cleared, and the process is started.
    Spawn(LaunchPlan),
}

/// What an event asks for.
#[derive(Debug)]
pub enum EventEffect {
    /// Output is shown.
    Output(Vec<u8>),
    /// The model has ended; nothing more is heard of it. Where the keeper has
    /// failed, the user is told why.
    Finished { error: Option<String> },
    Nothing,
}

/// What an event asks for.
pub enum EffectView {
    Output(Seq<u8>),
    Finished(Option<Seq<char>>),
    Nothing,
}

impl View for EventEffect {
    type V = EffectView;

    open spec fn view(&self) -> EffectView {
        match self {
            EventEffect::Output(bytes) => EffectView::Output(bytes@),
            EventEffect::Finished { error } => EffectView::Finished(
                match error {
                    Some(text) => Some(text@),
                    None => None,
                },
            ),
            EventEffect::Nothing => EffectView::Nothing,
        }
    }
}

/// A model, the number of those that run, and what is asked for, after an event
/// of its process.
pub open spec fn after_event(v: RuntimeView, running: int, event: ProcessEvent) -> (
    RuntimeView,
    int,
    EffectView,
) {
    match event {
        ProcessEvent::KeeperStatus(status) => match status.error_text() {
            Some(text) => (
                v.with_running(false, false),
                one_less(running),
                EffectView::Finished(Some(text)),
            ),
            None => (v, running, EffectView::Nothing),
        },
        ProcessEvent::KeeperMessage(message) => match message.output() {
            Some(bytes) => (v, running, EffectView::Output(bytes)),
            None => if message is ChildExited {
                (v.with_running(false, false), one_less(running), EffectView::Finished(None))
            } else {
                (v, running, EffectView::Nothing)
            },
        },
    }
}

/// What a model is handed where a line is entered.
pub open spec fn input_of(v: RuntimeView, text: Seq<char>) -> Option<Seq<char>> {
    if v.running && !blank(text) {
        Some(text + "\n"@)
    } else {
        None
    }
}

/// Whether a model can be stopped.
pub open spec fn can_be_stopped(v: RuntimeView) -> bool {
    v.running
}

/// Whether the window may be closed while `running` models run.
pub open spec fn may_close(running: int) -> bool {
    running <= 0
}

/// What is done when a model is to be started.
pub enum StartView {
    Nothing,
    Refuse(Seq<char>),
    Spawn {
        interactive: bool,
        preview: Seq<char>,
        command: Seq<Seq<char>>,
        env: Map<Seq<char>, Seq<char>>,
    },
}

impl View for StartAction {
    type V = StartView;

    open spec fn view(&self) -> StartView {
        match self {
            StartAction::Nothing => StartView::Nothing,
            StartAction::Refuse(text) => StartView::Refuse(text@),
            StartAction::Spawn(plan) => StartView::Spawn {
                interactive: plan.interactive,
                preview: plan.command_preview@,
                command: texts(plan.command@),
                env: plan.env.text_map(),
            },
        }
    }
}

/// What is done when a model is to be started.
pub open spec fn start_of(v: RuntimeView, context: AppContext, model: ModelConfig) -> StartView {
    if v.running {
        StartView::Nothing
    } else if context.config.binds(model, v.runtime_name, v.mode_name) {
        let choice = chosen(context.config, model, v.runtime_name, v.mode_name);
        let command = command_of(context.paths@, model, choice);
        StartView::Spawn {
            interactive: choice.mode.interactive,
            preview: preview_of(v.model_id, v.runtime_name, v.mode_name, command),
            command,
            env: env_of(context.runner.env(), choice),
        }
    } else {
        StartView::Refuse(
            "Failed to start model"@ + ": "@ + context.config.bind_error_text(
                v.model_id,
                model,
                v.runtime_name,
                v.mode_name,
            ),
        )
    }
}

/// A model in the window.
pub struct ModelRuntime {
    pub model_id: String,
    pub selection: ModelSelection,
    pub running: bool,
    pub controls: ModelControls,
}

impl View for ModelRuntime {
    type V = RuntimeView;

    open spec fn view(&self) -> RuntimeView {
        RuntimeView {
            model_id: self.model_id@,
            runtime_name: self.selection.runtime_name@,
            mode_name: self.selection.mode_name@,
            running: self.running,
            controls: self.controls@,
        }
    }
}

/// A model that has just come into the window.
pub open spec fn fresh(context: AppContext, model_id: Seq<char>, model: ModelConfig) -> RuntimeView {
    RuntimeView {
        model_id,
        runtime_name: Seq::empty(),
        mode_name: Seq::empty(),
        running: false,
        controls: ControlsView {
            start_enabled: true,
            stop_enabled: false,
            choices_enabled: true,
            input_enabled: false,
            icon: icon_of(false),
            command_label: Seq::empty(),
            mode_names: Seq::empty(),
            mode_index: 0,
        },
    }.with_runtime(
        context,
        model,
        preferred(model.runtimes, model.default_runtime@),
    )
}

impl ModelRuntime {
    /// A model that does not run, with its default runtime and the default mode
    /// of that.
    pub fn build(context: &AppContext, model_id: &str, model: &ModelConfig) -> (r: Self)
        ensures
            r@ == fresh(*context, model_id@, *model),
            r@.fits(),
    {
        let mut r = ModelRuntime {
            model_id: model_id.to_owned(),
            selection: ModelSelection::new(String::new(), String::new()),
            running: false,
            controls: ModelControls {
                start_enabled: true,
                stop_enabled: false,
                choices_enabled: true,
                input_enabled: false,
                icon: status_icon(false),
                command_label: String::new(),
                mode_names: Vec::new(),
                mode_index: 0,
            },
        };
        proof {
            assert(r@.runtime_name =~= Seq::empty());
            assert(r@.mode_name =~= Seq::empty());
            assert(r@.controls.command_label =~= Seq::empty());
            assert(r@.controls.mode_names =~= Seq::empty());
        }
        r.select_runtime(context, model, model.default_runtime_name());
        r
    }

    /// How the model would be run, or why it cannot be.
    pub fn build_launch_plan(&self, context: &AppContext, model: &ModelConfig) -> (r: Result<
        LaunchPlan,
        String,
    >)
        ensures
            r is Ok == context.config.binds(*model, self@.runtime_name, self@.mode_name),
            r matches Ok(plan) ==> {
                let choice = chosen(
                    context.config,
                    *model,
                    self@.runtime_name,
                    self@.mode_name,
                );
                let command = command_of(context.paths@, *model, choice);
                &&& plan.interactive == choice.mode.interactive
                &&& texts(plan.command@) == command
                &&& plan.command_preview@ == preview_of(
                    self@.model_id,
                    self@.runtime_name,
                    self@.mode_name,
                    command,
                )
                &&& plan.env.text_map() == env_of(context.runner.env(), choice)
            },
            r matches Err(text) ==> text@ == context.config.bind_error_text(
                self@.model_id,
                *model,
                self@.runtime_name,
                self@.mode_name,
            ),
    {
        match LaunchPlan::build(
            &context.config,
            self.model_id.as_str(),
            model,
            self.selection.runtime_name.as_str(),
            self.selection.mode_name.as_str(),
            &context.paths,
            &context.runner,
        ) {
            Ok(plan) => Ok(plan),
            Err(error) => Err(error.message()),
        }
    }

    /// Whether the mode that is selected takes input.
    pub fn selected_mode_is_interactive(&self, context: &AppContext, model: &ModelConfig) -> (r:
        bool)
        ensures
            r == takes_input(context.config, *model, self@.runtime_name, self@.mode_name),
    {
        match context.config.bind_mode(
            self.model_id.as_str(),
            model,
            self.selection.runtime_name.as_str(),
            self.selection.mode_name.as_str(),
        ) {
            Ok(binding) => binding.interactive(),
            Err(_) => false,
        }
    }

    /// Shows the command that would be run, and whether there is input.
    fn refresh(&mut self, context: &AppContext, model: &ModelConfig)
        ensures
            final(self)@ == old(self)@.with_mode(*context, *model, old(self)@.mode_name),
    {
        let label = match self.build_launch_plan(context, model) {
            Ok(plan) => plan.command_preview,
            Err(error) => text2("Config error: ", error.as_str()),
        };
        let input_enabled = self.running && self.selected_mode_is_interactive(context, model);
        self.controls.command_label = label;
        self.controls.input_enabled = input_enabled;
    }

    /// Selects a runtime, and the mode to begin with.
    pub fn select_runtime(
        &mut self,
        context: &AppContext,
        model: &ModelConfig,
        runtime_name: String,
    )
        ensures
            final(self)@ == old(self)@.with_runtime(*context, *model, runtime_name@),
            old(self)@.fits() ==> final(self)@.fits(),
    {
        let choices = resolve_mode_choices(
            &context.config,
            self.model_id.as_str(),
            model,
            runtime_name.as_str(),
        );
        self.controls.mode_index = match index_of(&choices.names, choices.selected.as_str()) {
            Some(i) => i,
            None => 0,
        };
        self.selection.runtime_name = runtime_name;
        self.selection.mode_name = choices.selected;
        self.controls.mode_names = choices.names;
        self.refresh(context, model);
    }

    /// Selects a mode.
    pub fn select_mode(&mut self, context: &AppContext, model: &ModelConfig, mode_name: String)
        ensures
            final(self)@ == old(self)@.with_mode(*context, *model, mode_name@),
            old(self)@.fits() ==> final(self)@.fits(),
    {
        self.selection.mode_name = mode_name;
        self.refresh(context, model);
    }

    /// What is done when the model is to be started.
    pub fn start_process(&self, context: &AppContext, model: &ModelConfig) -> (r: StartAction)
        ensures
            r@ == start_of(self@, *context, *model),
            if self@.running {
                r is Nothing
            } else if context.config.binds(*model, self@.runtime_name, self@.mode_name) {
                let choice = chosen(
                    context.config,
                    *model,
                    self@.runtime_name,
                    self@.mode_name,
                );
                &&& r is Spawn
                &&& r->Spawn_0.interactive == choice.mode.interactive
                &&& texts(r->Spawn_0.command@) == command_of(context.paths@, *model, choice)
                &&& r->Spawn_0.command_preview@ == preview_of(
                    self@.model_id,
                    self@.runtime_name,
                    self@.mode_name,
                    command_of(context.paths@, *model, choice),
                )
                &&& r->Spawn_0.env.text_map() == env_of(
                    context.runner.env(),
                    choice,
                )
            } else {
                &&& r is Refuse
                &&& r->Refuse_0@ == "Failed to start model"@ + ": "@
                    + context.config.bind_error_text(
                    self@.model_id,
                    *model,
                    self@.runtime_name,
                    self@.mode_name,
                )
            },
    {
        if self.running {
            return StartAction::Nothing;
        }
        match self.build_launch_plan(context, model) {
            Ok(plan) => StartAction::Spawn(plan),
            Err(error) => StartAction::Refuse(toast_text("Failed to start model", error.as_str())),
        }
    }

    /// Takes note of what came of starting the process, and gives what the user
    /// is told where it was not started.
    pub fn process_spawned(
        &mut self,
        state: &mut AppState,
        interactive: bool,
        outcome: Result<(), String>,
    ) -> (r: Option<String>)
        ensures
            match outcome {
                Ok(()) => {
                    &&& r is None
                    &&& final(self)@ == old(self)@.with_running(true, interactive)
                    &&& final(self).running
                    &&& final(self).controls.input_enabled == interactive
                    &&& final(state).running() == one_more(old(state).running())
                },
                Err(error) => {
                    &&& r is Some
                    &&& r->Some_0@ == "Failed to start model"@ + ": "@ + error@
                    &&& final(self)@ == old(self)@
                    &&& final(state).running() == old(state).running()
                },
            },
            old(self)@.fits() ==> final(self)@.fits(),
    {
        match outcome {
            Ok(()) => {
                self.set_running_state(true, interactive);
                state.mark_process_started();
                None
            },
            Err(error) => Some(toast_text("Failed to start model", error.as_str())),
        }
    }

    /// Takes note that the process has ended.
    pub fn finish_process(&mut self, state: &mut AppState)
        ensures
            final(self)@ == old(self)@.with_running(false, false),
            !final(self).running,
            !final(self).controls.input_enabled,
            final(self)@.fits(),
            final(state).running() == one_less(old(state).running()),
    {
        self.set_running_state(false, false);
        state.mark_process_stopped();
    }

    fn set_running_state(&mut self, running: bool, interactive: bool)
        ensures
            final(self)@ == old(self)@.with_running(running, interactive),
            final(self).running == running,
            final(self).controls.input_enabled == (running && interactive),
    {
        self.running = running;
        self.controls.start_enabled = !running;
        self.controls.stop_enabled = running;
        self.controls.choices_enabled = !running;
        self.controls.icon = status_icon(running);
        self.controls.input_enabled = running && interactive;
    }

    /// The request to stop the model, where it runs.
    pub fn stop_process(&self) -> (r: Option<ClientMessage>)
        ensures
            r is Some == self@.running,
            r matches Some(request) ==> request is Stop,
            r is Some == can_be_stopped(self@),
    {
        if self.running {
            Some(ClientMessage::Stop)
        } else {
            None
        }
    }

    /// The request to hand a line to the model, where it runs and the line is
    /// not blank.
    pub fn submit_input(&self, text: &str) -> (r: Option<ClientMessage>)
        ensures
            r is Some == (self@.running && !blank(text@)),
            r matches Some(request) ==> request is Stdin && request->data@ == text@ + "\n"@,
            r is Some == input_of(self@, text@) is Some,
            r matches Some(request) ==> input_of(self@, text@) == Some(request->data@),
    {
        if is_blank(text) || !self.running {
            return None;
        }
        Some(ClientMessage::input_line(text))
    }

    /// What an event of the process asks for; where the process has ended, note
    /// is taken of that.
    pub fn handle_process_event(&mut self, state: &mut AppState, event: &ProcessEvent) -> (r:
        EventEffect)
        ensures
            old(self)@.fits() ==> final(self)@.fits(),
            ({
                let after = after_event(old(self)@, old(state).running(), *event);
                &&& final(self)@ == after.0
                &&& final(state).running() == after.1
                &&& r@ == after.2
            }),
            if event.is_last() {
                &&& r is Finished
                &&& final(self)@ == old(self)@.with_running(false, false)
                &&& final(state).running() == one_less(old(state).running())
                &&& match event {
                    ProcessEvent::KeeperStatus(status) => r->error is Some
                        && status.error_text() == Some(r->error->Some_0@),
                    ProcessEvent::KeeperMessage(_) => r->error is None,
                }
            } else {
                &&& final(self)@ == old(self)@
                &&& final(state).running() == old(state).running()
                &&& match event {
                    ProcessEvent::KeeperMessage(message) => match message.output() {
                        Some(bytes) => r is Output && r->Output_0@ == bytes,
                        None => r is Nothing,
                    },
                    ProcessEvent::KeeperStatus(_) => r is Nothing,
                }
            },
    {
        if let Some(data) = event.child_output() {
            return EventEffect::Output(vstd::slice::slice_to_vec(data));
        }
        if event.ends_process_stream() {
            self.finish_process(state);
            let error = match event.keeper_error_message() {
                Some(message) => Some(message.to_owned()),
                None => None,
            };
            return EventEffect::Finished { error };
        }
        EventEffect::Nothing
    }
}

} // verus!
