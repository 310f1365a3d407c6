//! What holds of the controls of a model, whatever is chosen, started or ended.
use vstd::prelude::*;

use crate::config::{AppConfig, ModelConfig};
use crate::ipc::{KeeperMessage, KeeperStatus};
use crate::launch::{every_process_begins_with, ProcessEvent};
use crate::startup::AppContext;
use crate::text::{blank, is_space};
use crate::unix_path::lossy_text;
use crate::window::{after_event, can_be_stopped, choice_names, choice_selected, count_tells_whether_any_runs, fresh, index_or_first, input_of, may_close, number_running, one_less, one_more, position_is_first, row_name, start_of, takes_input, EffectView, RuntimeView, StartView};

verus! {

/// After a process has been started, input is enabled if and only if the mode
/// that it was started in is interactive; the model can be stopped, and neither
/// started nor be given another mode. What is selected stays.
pub proof fn started_model_takes_input_if_interactive(v: RuntimeView, interactive: bool)
    ensures
        ({
            let started = v.with_running(true, interactive);
            &&& started.running
            &&& started.controls.input_enabled == interactive
            &&& started.controls.stop_enabled
            &&& !started.controls.start_enabled
            &&& !started.controls.choices_enabled
            &&& started.controls.icon == "media-playback-start-symbolic"@
            &&& keeps_selection(v, started)
        }),
{
}

/// After a process has ended, there is no input; the model can be started and
/// be given another mode, and cannot be stopped. What is selected stays.
pub proof fn ended_model_takes_no_input(v: RuntimeView, interactive: bool)
    ensures
        ({
            let ended = v.with_running(false, interactive);
            &&& !ended.running
            &&& !ended.controls.input_enabled
            &&& !ended.controls.stop_enabled
            &&& ended.controls.start_enabled
            &&& ended.controls.choices_enabled
            &&& ended.controls.icon == "media-playback-stop-symbolic"@
            &&& keeps_selection(v, ended)
        }),
{
}

/// Whether the same model, runtime and mode are selected, out of the same modes
/// and with the same command shown.
pub open spec fn keeps_selection(v: RuntimeView, w: RuntimeView) -> bool {
    &&& w.model_id == v.model_id
    &&& w.runtime_name == v.runtime_name
    &&& w.mode_name == v.mode_name
    &&& w.controls.command_label == v.controls.command_label
    &&& w.controls.mode_names == v.controls.mode_names
    &&& w.controls.mode_index == v.controls.mode_index
}

/// A model that is started and ends is shown as it was before.
pub proof fn start_and_end_undo_each_other(v: RuntimeView, interactive: bool)
    requires
        !v.running,
        v.fits(),
    ensures
        v.with_running(true, interactive).with_running(false, false) == v,
{
}

/// Selecting a mode selects it and nothing else; whether the model runs does not
/// change, nor what can be pressed but for the input. There is input if and only
/// if the model runs and the mode is one of the runtime's and interactive.
pub proof fn selecting_a_mode(
    v: RuntimeView,
    context: AppContext,
    model: ModelConfig,
    mode_name: Seq<char>,
)
    ensures
        ({
            let w = v.with_mode(context, model, mode_name);
            let modes = context.config.runtimes.at(v.runtime_name).modes;
            &&& w.mode_name == mode_name
            &&& w.model_id == v.model_id
            &&& w.runtime_name == v.runtime_name
            &&& w.running == v.running
            &&& w.controls.start_enabled == v.controls.start_enabled
            &&& w.controls.stop_enabled == v.controls.stop_enabled
            &&& w.controls.choices_enabled == v.controls.choices_enabled
            &&& w.controls.icon == v.controls.icon
            &&& w.controls.mode_names == v.controls.mode_names
            &&& w.controls.mode_index == v.controls.mode_index
            &&& w.controls.input_enabled <==> {
                &&& v.running
                &&& model.runtimes.has(v.runtime_name)
                &&& context.config.runtimes.has(v.runtime_name)
                &&& modes.has(mode_name)
                &&& modes.at(mode_name).interactive
            }
        }),
{
}

/// What is shown of a mode that cannot be run begins with the word that it is a
/// mistake in the configuration; of one that can, with the model, the runtime
/// and the mode.
pub proof fn label_tells_whether_it_runs(
    v: RuntimeView,
    context: AppContext,
    model: ModelConfig,
    mode_name: Seq<char>,
)
    ensures
        ({
            let label = v.with_mode(context, model, mode_name).controls.command_label;
            let runs = model.runtimes.has(v.runtime_name) && context.config.runtimes.has(
                v.runtime_name,
            ) && context.config.runtimes.at(v.runtime_name).modes.has(mode_name);
            let head = "["@ + v.model_id + "/"@ + v.runtime_name + "/"@ + mode_name + "] "@;
            &&& runs ==> head.is_prefix_of(label)
            &&& !runs ==> "Config error: "@.is_prefix_of(label)
        }),
{
    let label = v.with_mode(context, model, mode_name).controls.command_label;
    let head = "["@ + v.model_id + "/"@ + v.runtime_name + "/"@ + mode_name + "] "@;
    if context.config.binds(model, v.runtime_name, mode_name) {
        assert(label.take(head.len() as int) =~= head);
    } else {
        assert(label.take("Config error: "@.len() as int) =~= "Config error: "@);
    }
}

/// Selecting a runtime offers its modes, in order, and selects one of them: the
/// default one where the runtime has it. The list shows the one that is
/// selected.
pub proof fn selecting_a_runtime(
    v: RuntimeView,
    context: AppContext,
    model: ModelConfig,
    runtime_name: Seq<char>,
)
    requires
        model.runtimes.has(runtime_name),
        context.config.runtimes.has(runtime_name),
    ensures
        ({
            let w = v.with_runtime(context, model, runtime_name);
            let modes = context.config.runtimes.at(runtime_name).modes;
            let wanted = model.runtimes.at(runtime_name).default_mode@;
            &&& w.runtime_name == runtime_name
            &&& w.model_id == v.model_id
            &&& w.running == v.running
            &&& w.controls.mode_names == modes.names()
            &&& modes.has(wanted) ==> w.mode_name == wanted
            &&& !modes.has(wanted) && modes.names().len() > 0 ==> w.mode_name == modes.names()[0]
            &&& modes.names().len() > 0 ==> {
                &&& 0 <= w.controls.mode_index < w.controls.mode_names.len()
                &&& w.controls.mode_names[w.controls.mode_index] == w.mode_name
            }
            &&& w.controls.input_enabled <==> v.running && modes.has(w.mode_name) && modes.at(
                w.mode_name,
            ).interactive
        }),
{
    let modes = context.config.runtimes.at(runtime_name).modes;
    let selected = choice_selected(context.config, model, runtime_name);
    position_is_first(modes.names(), selected);
    if modes.names().len() > 0 {
        assert(modes.names().contains(modes.names()[0]));
    }
}

/// A runtime that cannot run the model offers no modes, and takes no input.
pub proof fn selecting_an_unknown_runtime(
    v: RuntimeView,
    context: AppContext,
    model: ModelConfig,
    runtime_name: Seq<char>,
)
    requires
        !model.runtimes.has(runtime_name) || !context.config.runtimes.has(runtime_name),
    ensures
        ({
            let w = v.with_runtime(context, model, runtime_name);
            &&& w.runtime_name == runtime_name
            &&& w.mode_name.len() == 0
            &&& w.controls.mode_names.len() == 0
            &&& w.controls.mode_index == 0
            &&& !w.controls.input_enabled
        }),
{
}

/// A model that comes into the window does not run; it has its default runtime
/// where that is one of its runtimes, else the first of them.
pub proof fn fresh_model_is_stopped(context: AppContext, model_id: Seq<char>, model: ModelConfig)
    ensures
        ({
            let v = fresh(context, model_id, model);
            let names = model.runtimes.names();
            &&& v.model_id == model_id
            &&& !v.running
            &&& v.controls.start_enabled
            &&& !v.controls.stop_enabled
            &&& v.controls.choices_enabled
            &&& !v.controls.input_enabled
            &&& v.controls.icon == "media-playback-stop-symbolic"@
            &&& names.contains(model.default_runtime@) ==> v.runtime_name == model.default_runtime@
            &&& !names.contains(model.default_runtime@) && names.len() > 0 ==> v.runtime_name
                == names[0]
        }),
{
}

/// A mode takes input if and only if the model can be run in it and it is
/// interactive.
pub proof fn input_goes_to_interactive_modes(
    config: AppConfig,
    model: ModelConfig,
    runtime_name: Seq<char>,
    mode_name: Seq<char>,
)
    ensures
        takes_input(config, model, runtime_name, mode_name) <==> {
            &&& model.runtimes.has(runtime_name)
            &&& config.runtimes.has(runtime_name)
            &&& config.runtimes.at(runtime_name).modes.has(mode_name)
            &&& config.runtimes.at(runtime_name).modes.at(mode_name).interactive
        },
{
}

/// Counting up and down again gives the same number, unless that is the largest;
/// the count never leaves the range of its type.
pub proof fn counting_stays_in_range(n: int)
    requires
        0 <= n <= u32::MAX,
    ensures
        0 <= one_less(n) <= n <= one_more(n) <= u32::MAX,
        n < u32::MAX ==> one_less(one_more(n)) == n && one_more(n) == n + 1,
        n > 0 ==> one_more(one_less(n)) == n && one_less(n) == n - 1,
        one_less(0) == 0,
        one_more(u32::MAX as int) == u32::MAX,
{
}

/// What stands behind the start of a row's name is the model.
pub proof fn row_name_holds_its_model(model_id: Seq<char>)
    ensures
        row_name(model_id).len() == 10 + model_id.len(),
        row_name(model_id).skip(10) == model_id,
{
    reveal_strlit("model-row-");
    assert(row_name(model_id).skip(10) =~= model_id);
}

/// A place in a list that is asked for is that of the first such item, or the
/// first of all where there is none.
pub proof fn index_is_that_of_the_item(items: Seq<Seq<char>>, target: Seq<char>, i: int)
    requires
        0 <= i < items.len(),
        items[i] == target,
        forall|j: int| 0 <= j < i ==> #[trigger] items[j] != target,
    ensures
        index_or_first(items, target) == i,
{
    position_is_first(items, target);
    assert(items.contains(target));
    let k = index_or_first(items, target);
    if k < i {
        assert(items[k] != target);
    }
}

/// Whatever is selected, the modes that are offered are those of the runtime,
/// and the one to begin with is among them.
pub proof fn mode_to_begin_with_is_offered(
    config: AppConfig,
    model: ModelConfig,
    runtime_name: Seq<char>,
)
    requires
        choice_names(config, model, runtime_name).len() > 0,
    ensures
        model.runtimes.has(runtime_name),
        config.runtimes.has(runtime_name),
        choice_names(config, model, runtime_name).contains(
            choice_selected(config, model, runtime_name),
        ),
{
    let modes = config.runtimes.at(runtime_name).modes;
    assert(modes.names().contains(modes.names()[0]));
}

/// A line that is entered is handed to a model that runs, with the end of the
/// line behind it and nothing else changed; a line without a character other than
/// whitespace is not, nor is any to a model that does not run.
pub proof fn entered_line_is_handed_on(v: RuntimeView, text: Seq<char>)
    ensures
        input_of(v, text) is Some <==> v.running && exists|i: int|
            0 <= i < text.len() && !is_space(#[trigger] text[i]),
        input_of(v, text) matches Some(line) ==> {
            &&& line.len() == text.len() + 1
            &&& line.last() == '\n'
            &&& forall|i: int| 0 <= i < text.len() ==> #[trigger] line[i] == text[i]
        },
{
    reveal_strlit("\n");
    if v.running && !blank(text) {
        let i = choose|i: int| 0 <= i < text.len() && !is_space(#[trigger] text[i]);
        assert(!is_space(text[i]));
    }
}

/// A model can be stopped if and only if it has been started and has not ended.
pub proof fn running_model_can_be_stopped(v: RuntimeView, interactive: bool)
    ensures
        can_be_stopped(v.with_running(true, interactive)),
        !can_be_stopped(v.with_running(false, interactive)),
        v.fits() ==> can_be_stopped(v) == v.controls.stop_enabled,
{
}

/// The window may be closed if and only if no model runs.
pub proof fn window_closes_when_nothing_runs(models: Seq<bool>)
    ensures
        may_close(number_running(models)) <==> forall|i: int|
            0 <= i < models.len() ==> !#[trigger] models[i],
{
    count_tells_whether_any_runs(models);
}

/// Output is shown as it came, and changes nothing else.
pub proof fn output_is_shown_as_it_came(v: RuntimeView, running: int, data: Vec<u8>)
    ensures
        after_event(
            v,
            running,
            ProcessEvent::KeeperMessage(KeeperMessage::ChildStdout { data }),
        ) == (v, running, EffectView::Output(data@)),
        after_event(
            v,
            running,
            ProcessEvent::KeeperMessage(KeeperMessage::ChildStderr { data }),
        ) == (v, running, EffectView::Output(data@)),
        after_event(v, running, ProcessEvent::KeeperMessage(KeeperMessage::ChildSpawned)) == (
            v,
            running,
            EffectView::Nothing,
        ),
{
}

/// A model whose process has ended, or of which the keeper tells an error, does
/// not run any more, and one model less does; the error is told.
pub proof fn end_of_a_process_is_noted(v: RuntimeView, running: int, status: KeeperStatus)
    requires
        running > 0,
    ensures
        ({
            let (w, count, effect) = after_event(
                v,
                running,
                ProcessEvent::KeeperMessage(KeeperMessage::ChildExited),
            );
            &&& !w.running
            &&& !w.controls.input_enabled
            &&& w.controls.start_enabled
            &&& keeps_selection(v, w)
            &&& count == running - 1
            &&& effect == EffectView::Finished(None)
        }),
        ({
            let (w, count, effect) = after_event(v, running, ProcessEvent::KeeperStatus(status));
            match status.error {
                Some(text) => {
                    &&& !w.running
                    &&& !w.controls.input_enabled
                    &&& w.controls.start_enabled
                    &&& keeps_selection(v, w)
                    &&& count == running - 1
                    &&& effect == EffectView::Finished(Some(text@))
                },
                None => w == v && count == running && effect == EffectView::Nothing,
            }
        }),
{
}

/// A model that runs is not started again. Another is started where its runtime
/// can run it in its mode, as an interactive process if and only if the mode is
/// interactive, with the command of the mode in the root of the runner; and else
/// the user is told that it failed, and why.
pub proof fn model_is_started_once(v: RuntimeView, context: AppContext, model: ModelConfig)
    ensures
        ({
            let start = start_of(v, context, model);
            let modes = context.config.runtimes.at(v.runtime_name).modes;
            let runs = model.runtimes.has(v.runtime_name) && context.config.runtimes.has(
                v.runtime_name,
            ) && modes.has(v.mode_name);
            &&& start is Nothing <==> v.running
            &&& start is Spawn <==> !v.running && runs
            &&& start is Refuse <==> !v.running && !runs
            &&& start matches StartView::Spawn { interactive, preview, command, env } ==> {
                let head = "["@ + v.model_id + "/"@ + v.runtime_name + "/"@ + v.mode_name + "] "@;
                &&& interactive == modes.at(v.mode_name).interactive
                &&& command.len() >= 3
                &&& command[0] == "chroot"@
                &&& command[1] == lossy_text(context.paths@.runner_root)
                &&& command[2] == modes.at(v.mode_name).executable@
                &&& head.is_prefix_of(preview)
                &&& env.contains_key("PATH"@)
            }
            &&& start matches StartView::Refuse(text) ==> "Failed to start model: "@.is_prefix_of(
                text,
            )
        }),
{
    let start = start_of(v, context, model);
    if start is Spawn {
        let head = "["@ + v.model_id + "/"@ + v.runtime_name + "/"@ + v.mode_name + "] "@;
        assert(start->preview.take(head.len() as int) =~= head);
        every_process_begins_with("PATH"@);
    }
    if start is Refuse {
        reveal_strlit("Failed to start model");
        reveal_strlit(": ");
        reveal_strlit("Failed to start model: ");
        let head = "Failed to start model: "@;
        assert("Failed to start model"@ + ": "@ =~= head);
        assert(start->Refuse_0.take(head.len() as int) =~= head);
    }
}

} // verus!
