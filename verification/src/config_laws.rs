//! What holds of every configuration: what is reported of it, and what it lets a
//! model be run with.
use vstd::prelude::*;
use vstd::utf8::encode_utf8;

use crate::config::{chosen, config_errors, config_valid, errors_tell_validity, is_option, mapping_errors, mode_errors, model_errors, model_path, model_valid, override_errors, preferred, runtime_errors, runtime_valid, title_repeated, AppConfig, ModelConfig, ModelRuntimeConfig, RuntimeConfig, CONFIG_VERSION};
use crate::names::NameMap;
use crate::text::{blank, both_hold, digits, flagged, gathered, gathered_holds_each, is_space, precedes};
use crate::unix_path::{lossy_text, path_joined};

verus! {

/// Whether a text holds a character other than whitespace.
pub open spec fn says_something(text: Seq<char>) -> bool {
    exists|i: int| 0 <= i < text.len() && !is_space(#[trigger] text[i])
}

proof fn blank_says_nothing(text: Seq<char>)
    ensures
        blank(text) <==> !says_something(text),
{
    if !says_something(text) {
        assert forall|i: int| 0 <= i < text.len() implies is_space(#[trigger] text[i]) by {}
    }
}

/// A configuration is accepted if and only if it has the version that is
/// understood, runtimes and models; each runtime has modes, each with a program,
/// and an option that announces the model; each model has a title that is its
/// own, a file that is there, and its default runtime among its runtimes; and
/// each of these is one of the configuration's and has the modes that the model
/// speaks of.
pub proof fn accepted_configurations(config: AppConfig, files_root: Seq<u8>, there: Seq<bool>)
    ensures
        config_errors(config, files_root, there).len() == 0 <==> {
            let runtimes = config.runtimes;
            let models = config.models;
            &&& config.config_version == 1
            &&& runtimes.names().len() > 0
            &&& models.names().len() > 0
            &&& forall|i: int|
                0 <= i < runtimes.names().len() ==> {
                    let runtime = #[trigger] runtimes.value(i);
                    &&& runtime.model_arg@.len() > 0
                    &&& runtime.model_arg@[0] == '-'
                    &&& runtime.modes.names().len() > 0
                    &&& forall|k: int|
                        0 <= k < runtime.modes.names().len() ==> says_something(
                            (#[trigger] runtime.modes.value(k)).executable@,
                        )
                }
            &&& forall|i: int|
                0 <= i < models.names().len() ==> {
                    let model = #[trigger] models.value(i);
                    &&& says_something(model.title@)
                    &&& model.runtimes.names().contains(model.default_runtime@)
                    &&& forall|k: int|
                        0 <= k < model.runtimes.names().len() ==> {
                            let name = #[trigger] model.runtimes.names()[k];
                            let mapping = model.runtimes.value(k);
                            let modes = runtimes.at(name).modes.names();
                            &&& runtimes.names().contains(name)
                            &&& modes.contains(mapping.default_mode@)
                            &&& forall|m: int|
                                0 <= m < mapping.modes.names().len() ==> modes.contains(
                                    #[trigger] mapping.modes.names()[m],
                                )
                        }
                }
            &&& forall|i: int| 0 <= i < models.names().len() ==> #[trigger] there[i]
            &&& forall|i: int, j: int|
                0 <= i < j < models.names().len() ==> (#[trigger] models.value(i)).title@ != (
                #[trigger] models.value(j)).title@
        },
{
    errors_tell_validity(config, files_root, there);
    assert forall|text: Seq<char>| #[trigger] blank(text) <==> !says_something(text) by {
        blank_says_nothing(text);
    }
    let runtimes = config.runtimes;
    let models = config.models;
    if config_errors(config, files_root, there).len() == 0 {
        assert forall|i: int| 0 <= i < runtimes.names().len() implies ({
            let runtime = #[trigger] runtimes.value(i);
            &&& runtime.model_arg@.len() > 0
            &&& runtime.model_arg@[0] == '-'
            &&& runtime.modes.names().len() > 0
            &&& forall|k: int|
                0 <= k < runtime.modes.names().len() ==> says_something(
                    (#[trigger] runtime.modes.value(k)).executable@,
                )
        }) by {
            assert(runtime_valid(runtimes.value(i)));
        }
        assert forall|i: int| 0 <= i < models.names().len() implies ({
            let model = #[trigger] models.value(i);
            &&& says_something(model.title@)
            &&& model.runtimes.names().contains(model.default_runtime@)
            &&& forall|k: int|
                0 <= k < model.runtimes.names().len() ==> {
                    let name = #[trigger] model.runtimes.names()[k];
                    let mapping = model.runtimes.value(k);
                    let modes = runtimes.at(name).modes.names();
                    &&& runtimes.names().contains(name)
                    &&& modes.contains(mapping.default_mode@)
                    &&& forall|m: int|
                        0 <= m < mapping.modes.names().len() ==> modes.contains(
                            #[trigger] mapping.modes.names()[m],
                        )
                }
        }) by {
            assert(model_valid(runtimes, models.value(i)));
        }
    } else {
        assert(!config_valid(config, there));
    }
}

/// What is wrong with a configuration as a whole is told.
pub proof fn defects_of_the_whole_are_told(
    config: AppConfig,
    files_root: Seq<u8>,
    there: Seq<bool>,
)
    ensures
        ({
            let errors = config_errors(config, files_root, there);
            &&& config.config_version != 1 ==> errors.contains(
                "unsupported config_version "@ + digits(config.config_version as nat)
                    + ", expected 1"@,
            )
            &&& config.runtimes.names().len() == 0 ==> errors.contains(
                "config must declare at least one runtime"@,
            )
            &&& config.models.names().len() == 0 ==> errors.contains(
                "config must declare at least one model"@,
            )
        }),
{
    let version = "unsupported config_version "@ + digits(config.config_version as nat)
        + ", expected 1"@;
    let no_runtime = "config must declare at least one runtime"@;
    let no_model = "config must declare at least one model"@;
    parts_are_told(config, files_root, there, version);
    parts_are_told(config, files_root, there, no_runtime);
    parts_are_told(config, files_root, there, no_model);
}

proof fn flag_is_told(condition: bool, text: Seq<char>, other: Seq<char>)
    ensures
        flagged(condition, text).contains(other) <==> condition && text == other,
{
    if condition {
        assert(flagged(condition, text)[0] == text);
    }
}

proof fn parts_are_told(
    config: AppConfig,
    files_root: Seq<u8>,
    there: Seq<bool>,
    text: Seq<char>,
)
    ensures
        config_errors(config, files_root, there).contains(text) <==> {
            ||| config.config_version != 1 && text == "unsupported config_version "@ + digits(
                config.config_version as nat,
            ) + ", expected 1"@
            ||| config.runtimes.names().len() == 0 && text
                == "config must declare at least one runtime"@
            ||| config.models.names().len() == 0 && text
                == "config must declare at least one model"@
            ||| exists|i: int|
                0 <= i < config.runtimes.names().len() && runtime_errors(
                    config.runtimes.names()[i],
                    #[trigger] config.runtimes.value(i),
                ).contains(text)
            ||| exists|i: int|
                0 <= i < config.models.names().len() && (#[trigger] model_errors(
                    config,
                    files_root,
                    i,
                    there[i],
                )).contains(text)
        },
{
    let a = flagged(
        config.config_version != CONFIG_VERSION,
        "unsupported config_version "@ + digits(config.config_version as nat) + ", expected 1"@,
    );
    let b = flagged(
        config.runtimes.names().len() == 0,
        "config must declare at least one runtime"@,
    );
    let c = flagged(
        config.models.names().len() == 0,
        "config must declare at least one model"@,
    );
    let f = |i: int| runtime_errors(config.runtimes.names()[i], config.runtimes.value(i));
    let g = |i: int| model_errors(config, files_root, i, there[i]);
    let n = config.runtimes.names().len() as int;
    let m = config.models.names().len() as int;
    flag_is_told(
        config.config_version != CONFIG_VERSION,
        "unsupported config_version "@ + digits(config.config_version as nat) + ", expected 1"@,
        text,
    );
    flag_is_told(
        config.runtimes.names().len() == 0,
        "config must declare at least one runtime"@,
        text,
    );
    flag_is_told(
        config.models.names().len() == 0,
        "config must declare at least one model"@,
        text,
    );
    both_hold(a, b, text);
    both_hold(a + b, c, text);
    both_hold(a + b + c, gathered(n, f), text);
    both_hold(a + b + c + gathered(n, f), gathered(m, g), text);
    gathered_holds_each(n, f, text);
    gathered_holds_each(m, g, text);
    if exists|i: int| 0 <= i < n && (#[trigger] f(i)).contains(text) {
        let i = choose|i: int| 0 <= i < n && (#[trigger] f(i)).contains(text);
        assert(runtime_errors(config.runtimes.names()[i], config.runtimes.value(i)).contains(text));
    }
    if exists|i: int|
        0 <= i < n && runtime_errors(
            config.runtimes.names()[i],
            #[trigger] config.runtimes.value(i),
        ).contains(text) {
        let i = choose|i: int|
            0 <= i < n && runtime_errors(
                config.runtimes.names()[i],
                #[trigger] config.runtimes.value(i),
            ).contains(text);
        assert(f(i).contains(text));
    }
    if exists|i: int| 0 <= i < m && (#[trigger] g(i)).contains(text) {
        let i = choose|i: int| 0 <= i < m && (#[trigger] g(i)).contains(text);
        assert(model_errors(config, files_root, i, there[i]).contains(text));
    }
    if exists|i: int|
        0 <= i < m && (#[trigger] model_errors(config, files_root, i, there[i])).contains(text) {
        let i = choose|i: int|
            0 <= i < m && (#[trigger] model_errors(config, files_root, i, there[i])).contains(text);
        assert(g(i).contains(text));
    }
}

/// What is wrong with a runtime is told, with the name of the runtime.
pub proof fn defects_of_a_runtime_are_told(
    config: AppConfig,
    files_root: Seq<u8>,
    there: Seq<bool>,
    i: int,
    k: int,
)
    requires
        0 <= i < config.runtimes.names().len(),
    ensures
        ({
            let errors = config_errors(config, files_root, there);
            let name = config.runtimes.names()[i];
            let runtime = config.runtimes.value(i);
            &&& runtime.model_arg@.len() == 0 || runtime.model_arg@[0] != '-' ==> errors.contains(
                "runtime `"@ + name + "` has invalid model_arg `"@ + runtime.model_arg@ + "`"@,
            )
            &&& runtime.modes.names().len() == 0 ==> errors.contains(
                "runtime `"@ + name + "` must declare at least one mode"@,
            )
            &&& 0 <= k < runtime.modes.names().len() && !says_something(
                runtime.modes.value(k).executable@,
            ) ==> errors.contains(
                "runtime `"@ + name + "` mode `"@ + runtime.modes.names()[k]
                    + "` must define a non-empty executable"@,
            )
        }),
{
    let name = config.runtimes.names()[i];
    let runtime = config.runtimes.value(i);
    let arg = "runtime `"@ + name + "` has invalid model_arg `"@ + runtime.model_arg@ + "`"@;
    let none = "runtime `"@ + name + "` must declare at least one mode"@;
    let program = "runtime `"@ + name + "` mode `"@ + runtime.modes.names()[k]
        + "` must define a non-empty executable"@;
    runtime_parts(name, runtime, arg, k);
    runtime_parts(name, runtime, none, k);
    runtime_parts(name, runtime, program, k);
    parts_are_told(config, files_root, there, arg);
    parts_are_told(config, files_root, there, none);
    parts_are_told(config, files_root, there, program);
    if 0 <= k < runtime.modes.names().len() {
        blank_says_nothing(runtime.modes.value(k).executable@);
    }
}

proof fn runtime_parts(name: Seq<char>, runtime: RuntimeConfig, text: Seq<char>, k: int)
    ensures
        !is_option(runtime.model_arg@) && text == "runtime `"@ + name
            + "` has invalid model_arg `"@ + runtime.model_arg@ + "`"@ ==> runtime_errors(
            name,
            runtime,
        ).contains(text),
        runtime.modes.names().len() == 0 && text == "runtime `"@ + name
            + "` must declare at least one mode"@ ==> runtime_errors(name, runtime).contains(text),
        0 <= k < runtime.modes.names().len() && blank(runtime.modes.value(k).executable@) && text
            == "runtime `"@ + name + "` mode `"@ + runtime.modes.names()[k]
            + "` must define a non-empty executable"@ ==> runtime_errors(name, runtime).contains(
            text,
        ),
{
    let a = flagged(
        !is_option(runtime.model_arg@),
        "runtime `"@ + name + "` has invalid model_arg `"@ + runtime.model_arg@ + "`"@,
    );
    let b = flagged(
        runtime.modes.names().len() == 0,
        "runtime `"@ + name + "` must declare at least one mode"@,
    );
    let f = |i: int| mode_errors(name, runtime.modes.names()[i], runtime.modes.value(i));
    let n = runtime.modes.names().len() as int;
    flag_is_told(
        !is_option(runtime.model_arg@),
        "runtime `"@ + name + "` has invalid model_arg `"@ + runtime.model_arg@ + "`"@,
        text,
    );
    flag_is_told(
        runtime.modes.names().len() == 0,
        "runtime `"@ + name + "` must declare at least one mode"@,
        text,
    );
    both_hold(a, b, text);
    both_hold(a + b, gathered(n, f), text);
    gathered_holds_each(n, f, text);
    if 0 <= k < n {
        flag_is_told(
            blank(runtime.modes.value(k).executable@),
            "runtime `"@ + name + "` mode `"@ + runtime.modes.names()[k]
                + "` must define a non-empty executable"@,
            text,
        );
        assert(f(k) == mode_errors(name, runtime.modes.names()[k], runtime.modes.value(k)));
    }
}

/// Why a model cannot be run is told by the first of what is missing: the runtime
/// among those of the model, the runtime itself, or the mode.
pub proof fn first_obstacle_is_told(
    config: AppConfig,
    model_id: Seq<char>,
    model: ModelConfig,
    runtime_name: Seq<char>,
    mode_name: Seq<char>,
)
    ensures
        ({
            let mapped = model.runtimes.has(runtime_name);
            let known = config.runtimes.has(runtime_name);
            let has_mode = config.runtimes.at(runtime_name).modes.has(mode_name);
            let text = config.bind_error_text(model_id, model, runtime_name, mode_name);
            &&& config.binds(model, runtime_name, mode_name) <==> mapped && known && has_mode
            &&& !mapped ==> text == "model `"@ + model_id + "` has no runtime mapping `"@
                + runtime_name + "`"@
            &&& mapped && !known ==> text == "unknown runtime `"@ + runtime_name + "`"@
            &&& mapped && known && !has_mode ==> text == "unknown mode `"@ + mode_name
                + "` for runtime `"@ + runtime_name + "`"@
        }),
{
}

/// A name that is asked for is taken where it is there; else the one that comes
/// before all others.
pub proof fn preferred_names<V>(map: NameMap<V>, wanted: Seq<char>, other: Seq<char>)
    requires
        map.wf(),
    ensures
        map.has(wanted) ==> preferred(map, wanted) == wanted,
        !map.has(wanted) && map.has(other) ==> {
            &&& map.has(preferred(map, wanted))
            &&& preferred(map, wanted) == other || precedes(preferred(map, wanted), other)
        },
        map.names().len() == 0 ==> preferred(map, wanted).len() == 0,
{
    if !map.has(wanted) && map.has(other) {
        map.names_in_order();
        let i = map.names().index_of(other);
        assert(map.names().contains(map.names()[0]));
    }
}

/// What is chosen is the runtime and its mode of the given names, with what the
/// model gives for that runtime and, where it does, for that mode.
pub proof fn choice_is_that_of_the_names(
    config: AppConfig,
    model: ModelConfig,
    runtime_name: Seq<char>,
    mode_name: Seq<char>,
)
    ensures
        ({
            let choice = chosen(config, model, runtime_name, mode_name);
            &&& choice.runtime_name == runtime_name
            &&& choice.runtime == config.runtimes.at(runtime_name)
            &&& choice.mapping == model.runtimes.at(runtime_name)
            &&& choice.mode == config.runtimes.at(runtime_name).modes.at(mode_name)
            &&& choice.changes is Some <==> model.runtimes.at(runtime_name).modes.has(mode_name)
            &&& choice.changes is Some ==> choice.changes->Some_0 == model.runtimes.at(
                runtime_name,
            ).modes.at(mode_name)
        }),
{
}

/// The file of a model is looked for under the directory of the files.
pub proof fn model_file_is_under_the_files(files_root: Seq<u8>, model: ModelConfig)
    ensures
        model_path(files_root, model) == path_joined(files_root, encode_utf8(model.file@)),
{
}

proof fn model_parts(
    config: AppConfig,
    files_root: Seq<u8>,
    i: int,
    file_is_there: bool,
    text: Seq<char>,
)
    ensures
        model_errors(config, files_root, i, file_is_there).contains(text) <==> {
            let id = config.models.names()[i];
            let model = config.models.value(i);
            ||| blank(model.title@) && text == "model `"@ + id + "` must define a title"@
            ||| title_repeated(config.models, i) && text
                == "duplicate model title `"@ + model.title@ + "`"@
            ||| model.runtimes.names().len() == 0 && text == "model `"@ + id
                + "` must declare at least one runtime mapping"@
            ||| !file_is_there && text == "model `"@ + id + "` file is missing: "@ + lossy_text(
                model_path(files_root, model),
            )
            ||| !model.runtimes.has(model.default_runtime@) && text == "model `"@ + id
                + "` references unknown default runtime `"@ + model.default_runtime@
                + "` in its runtime mappings"@
            ||| exists|k: int|
                0 <= k < model.runtimes.names().len() && mapping_errors(
                    config.runtimes,
                    id,
                    #[trigger] model.runtimes.names()[k],
                    model.runtimes.value(k),
                ).contains(text)
        },
{
    let id = config.models.names()[i];
    let model = config.models.value(i);
    let t1 = "model `"@ + id + "` must define a title"@;
    let t2 = "duplicate model title `"@ + model.title@ + "`"@;
    let t3 = "model `"@ + id + "` must declare at least one runtime mapping"@;
    let t4 = "model `"@ + id + "` file is missing: "@ + lossy_text(model_path(files_root, model));
    let t5 = "model `"@ + id + "` references unknown default runtime `"@ + model.default_runtime@
        + "` in its runtime mappings"@;
    let c1 = blank(model.title@);
    let c2 = title_repeated(config.models, i);
    let c3 = model.runtimes.names().len() == 0;
    let c5 = !model.runtimes.has(model.default_runtime@);
    let a1 = flagged(c1, t1);
    let a2 = flagged(c2, t2);
    let a3 = flagged(c3, t3);
    let a4 = flagged(!file_is_there, t4);
    let a5 = flagged(c5, t5);
    let f = |k: int|
        mapping_errors(config.runtimes, id, model.runtimes.names()[k], model.runtimes.value(k));
    let n = model.runtimes.names().len() as int;
    flag_is_told(c1, t1, text);
    flag_is_told(c2, t2, text);
    flag_is_told(c3, t3, text);
    flag_is_told(!file_is_there, t4, text);
    flag_is_told(c5, t5, text);
    both_hold(a1, a2, text);
    both_hold(a1 + a2, a3, text);
    both_hold(a1 + a2 + a3, a4, text);
    both_hold(a1 + a2 + a3 + a4, a5, text);
    both_hold(a1 + a2 + a3 + a4 + a5, gathered(n, f), text);
    gathered_holds_each(n, f, text);
    if exists|k: int| 0 <= k < n && (#[trigger] f(k)).contains(text) {
        let k = choose|k: int| 0 <= k < n && (#[trigger] f(k)).contains(text);
        assert(mapping_errors(
            config.runtimes,
            id,
            model.runtimes.names()[k],
            model.runtimes.value(k),
        ).contains(text));
    }
    if exists|k: int|
        0 <= k < n && mapping_errors(
            config.runtimes,
            id,
            #[trigger] model.runtimes.names()[k],
            model.runtimes.value(k),
        ).contains(text) {
        let k = choose|k: int|
            0 <= k < n && mapping_errors(
                config.runtimes,
                id,
                #[trigger] model.runtimes.names()[k],
                model.runtimes.value(k),
            ).contains(text);
        assert(f(k).contains(text));
    }
}

proof fn mapping_parts(
    runtimes: NameMap<RuntimeConfig>,
    id: Seq<char>,
    name: Seq<char>,
    mapping: ModelRuntimeConfig,
    text: Seq<char>,
)
    ensures
        mapping_errors(runtimes, id, name, mapping).contains(text) <==> {
            let modes = runtimes.at(name).modes;
            ||| !runtimes.has(name) && text == "model `"@ + id + "` references unknown runtime `"@
                + name + "`"@
            ||| runtimes.has(name) && !modes.has(mapping.default_mode@) && text == "model `"@ + id
                + "` references unknown default mode `"@ + mapping.default_mode@
                + "` for runtime `"@ + name + "`"@
            ||| runtimes.has(name) && exists|m: int|
                {
                    &&& 0 <= m < mapping.modes.names().len()
                    &&& !modes.has(#[trigger] mapping.modes.names()[m])
                    &&& text == "model `"@ + id + "` references unknown mode override `"@
                        + mapping.modes.names()[m] + "` for runtime `"@ + name + "`"@
                }
        },
{
    if !runtimes.has(name) {
        let list = mapping_errors(runtimes, id, name, mapping);
        assert(list[0] == "model `"@ + id + "` references unknown runtime `"@ + name + "`"@);
    } else {
        let runtime = runtimes.at(name);
        let t = "model `"@ + id + "` references unknown default mode `"@ + mapping.default_mode@
            + "` for runtime `"@ + name + "`"@;
        let c = !runtime.modes.has(mapping.default_mode@);
        let a = flagged(c, t);
        let f = |i: int| override_errors(id, name, runtime, mapping.modes.names()[i]);
        let n = mapping.modes.names().len() as int;
        flag_is_told(c, t, text);
        both_hold(a, gathered(n, f), text);
        gathered_holds_each(n, f, text);
        assert forall|i: int| (#[trigger] f(i)).contains(text) <==> {
            &&& !runtime.modes.has(mapping.modes.names()[i])
            &&& text == "model `"@ + id + "` references unknown mode override `"@
                + mapping.modes.names()[i] + "` for runtime `"@ + name + "`"@
        } by {
            flag_is_told(
                !runtime.modes.has(mapping.modes.names()[i]),
                "model `"@ + id + "` references unknown mode override `"@
                    + mapping.modes.names()[i] + "` for runtime `"@ + name + "`"@,
                text,
            );
        }
        if exists|i: int| 0 <= i < n && (#[trigger] f(i)).contains(text) {
            let i = choose|i: int| 0 <= i < n && (#[trigger] f(i)).contains(text);
            assert(!runtime.modes.has(mapping.modes.names()[i]));
        }
        if exists|m: int|
            {
                &&& 0 <= m < mapping.modes.names().len()
                &&& !runtime.modes.has(#[trigger] mapping.modes.names()[m])
                &&& text == "model `"@ + id + "` references unknown mode override `"@
                    + mapping.modes.names()[m] + "` for runtime `"@ + name + "`"@
            } {
            let m = choose|m: int|
                {
                    &&& 0 <= m < mapping.modes.names().len()
                    &&& !runtime.modes.has(#[trigger] mapping.modes.names()[m])
                    &&& text == "model `"@ + id + "` references unknown mode override `"@
                        + mapping.modes.names()[m] + "` for runtime `"@ + name + "`"@
                };
            assert(f(m).contains(text));
        }
    }
}

/// What is wrong with a model is told, with its name: a title that is missing or
/// that another model has, a file that is not there, runtimes that are missing or
/// not known.
pub proof fn defects_of_a_model_are_told(
    config: AppConfig,
    files_root: Seq<u8>,
    there: Seq<bool>,
    i: int,
)
    requires
        0 <= i < config.models.names().len(),
    ensures
        ({
            let errors = config_errors(config, files_root, there);
            let id = config.models.names()[i];
            let model = config.models.value(i);
            &&& !says_something(model.title@) ==> errors.contains(
                "model `"@ + id + "` must define a title"@,
            )
            &&& (exists|j: int|
                0 <= j < i && (#[trigger] config.models.value(j)).title@ == model.title@)
                ==> errors.contains("duplicate model title `"@ + model.title@ + "`"@)
            &&& model.runtimes.names().len() == 0 ==> errors.contains(
                "model `"@ + id + "` must declare at least one runtime mapping"@,
            )
            &&& !there[i] ==> errors.contains(
                "model `"@ + id + "` file is missing: "@ + lossy_text(
                    path_joined(files_root, encode_utf8(model.file@)),
                ),
            )
            &&& !model.runtimes.names().contains(model.default_runtime@) ==> errors.contains(
                "model `"@ + id + "` references unknown default runtime `"@ + model.default_runtime@
                    + "` in its runtime mappings"@,
            )
        }),
{
    let id = config.models.names()[i];
    let model = config.models.value(i);
    blank_says_nothing(model.title@);
    let t1 = "model `"@ + id + "` must define a title"@;
    let t2 = "duplicate model title `"@ + model.title@ + "`"@;
    let t3 = "model `"@ + id + "` must declare at least one runtime mapping"@;
    let t4 = "model `"@ + id + "` file is missing: "@ + lossy_text(
        path_joined(files_root, encode_utf8(model.file@)),
    );
    let t5 = "model `"@ + id + "` references unknown default runtime `"@ + model.default_runtime@
        + "` in its runtime mappings"@;
    model_is_told(config, files_root, there, i, t1);
    model_is_told(config, files_root, there, i, t2);
    model_is_told(config, files_root, there, i, t3);
    model_is_told(config, files_root, there, i, t4);
    model_is_told(config, files_root, there, i, t5);
}

proof fn model_is_told(
    config: AppConfig,
    files_root: Seq<u8>,
    there: Seq<bool>,
    i: int,
    text: Seq<char>,
)
    requires
        0 <= i < config.models.names().len(),
    ensures
        model_errors(config, files_root, i, there[i]).contains(text) ==> config_errors(
            config,
            files_root,
            there,
        ).contains(text),
        ({
            let id = config.models.names()[i];
            let model = config.models.value(i);
            let told = model_errors(config, files_root, i, there[i]).contains(text);
            &&& blank(model.title@) && text == "model `"@ + id + "` must define a title"@ ==> told
            &&& title_repeated(config.models, i) && text
                == "duplicate model title `"@ + model.title@ + "`"@ ==> told
            &&& model.runtimes.names().len() == 0 && text == "model `"@ + id
                + "` must declare at least one runtime mapping"@ ==> told
            &&& !there[i] && text == "model `"@ + id + "` file is missing: "@ + lossy_text(
                model_path(files_root, model),
            ) ==> told
            &&& !model.runtimes.has(model.default_runtime@) && text == "model `"@ + id
                + "` references unknown default runtime `"@ + model.default_runtime@
                + "` in its runtime mappings"@ ==> told
        }),
{
    parts_are_told(config, files_root, there, text);
    model_parts(config, files_root, i, there[i], text);
}

/// What is wrong with the way in which a model is run is told, with the model and
/// the runtime: a runtime that is not known, a default mode that it does not
/// have, or changes to a mode that it does not have.
pub proof fn defects_of_a_mapping_are_told(
    config: AppConfig,
    files_root: Seq<u8>,
    there: Seq<bool>,
    i: int,
    k: int,
    m: int,
)
    requires
        0 <= i < config.models.names().len(),
        0 <= k < config.models.value(i).runtimes.names().len(),
    ensures
        ({
            let errors = config_errors(config, files_root, there);
            let id = config.models.names()[i];
            let name = config.models.value(i).runtimes.names()[k];
            let mapping = config.models.value(i).runtimes.value(k);
            let known = config.runtimes.names().contains(name);
            let modes = config.runtimes.at(name).modes.names();
            &&& !known ==> errors.contains(
                "model `"@ + id + "` references unknown runtime `"@ + name + "`"@,
            )
            &&& known && !modes.contains(mapping.default_mode@) ==> errors.contains(
                "model `"@ + id + "` references unknown default mode `"@ + mapping.default_mode@
                    + "` for runtime `"@ + name + "`"@,
            )
            &&& known && 0 <= m < mapping.modes.names().len() && !modes.contains(
                mapping.modes.names()[m],
            ) ==> errors.contains(
                "model `"@ + id + "` references unknown mode override `"@
                    + mapping.modes.names()[m] + "` for runtime `"@ + name + "`"@,
            )
        }),
{
    let id = config.models.names()[i];
    let model = config.models.value(i);
    let name = model.runtimes.names()[k];
    let mapping = model.runtimes.value(k);
    let t1 = "model `"@ + id + "` references unknown runtime `"@ + name + "`"@;
    let t2 = "model `"@ + id + "` references unknown default mode `"@ + mapping.default_mode@
        + "` for runtime `"@ + name + "`"@;
    let t3 = "model `"@ + id + "` references unknown mode override `"@ + mapping.modes.names()[m]
        + "` for runtime `"@ + name + "`"@;
    mapping_is_told(config, files_root, there, i, k, t1);
    mapping_is_told(config, files_root, there, i, k, t2);
    mapping_is_told(config, files_root, there, i, k, t3);
}

proof fn mapping_is_told(
    config: AppConfig,
    files_root: Seq<u8>,
    there: Seq<bool>,
    i: int,
    k: int,
    text: Seq<char>,
)
    requires
        0 <= i < config.models.names().len(),
        0 <= k < config.models.value(i).runtimes.names().len(),
    ensures
        ({
            let id = config.models.names()[i];
            let name = config.models.value(i).runtimes.names()[k];
            let mapping = config.models.value(i).runtimes.value(k);
            let modes = config.runtimes.at(name).modes;
            let told = config_errors(config, files_root, there).contains(text);
            &&& !config.runtimes.has(name) && text == "model `"@ + id
                + "` references unknown runtime `"@ + name + "`"@ ==> told
            &&& config.runtimes.has(name) && !modes.has(mapping.default_mode@) && text == "model `"@
                + id + "` references unknown default mode `"@ + mapping.default_mode@
                + "` for runtime `"@ + name + "`"@ ==> told
            &&& forall|m: int|
                config.runtimes.has(name) && 0 <= m < mapping.modes.names().len() && !modes.has(
                    #[trigger] mapping.modes.names()[m],
                ) && text == "model `"@ + id + "` references unknown mode override `"@
                    + mapping.modes.names()[m] + "` for runtime `"@ + name + "`"@ ==> told
        }),
{
    let id = config.models.names()[i];
    let model = config.models.value(i);
    parts_are_told(config, files_root, there, text);
    model_parts(config, files_root, i, there[i], text);
    mapping_parts(
        config.runtimes,
        id,
        model.runtimes.names()[k],
        model.runtimes.value(k),
        text,
    );
}

} // verus!
