//! What holds of a loaded configuration: where each setting comes from, what it is
//! when it is left out, and which settings are accepted.

use std::path::{Path, PathBuf};
use vstd::prelude::*;
use vstd::utf8::encode_utf8;

use crate::config::{
    absolute_parts, begins_with, directory_of, expanded, filled_texts, first_fault, name_char,
    refreshes, secret_of, section, state_limits, text_setting, variable_of, ConfigError,
    ConfigManager, Environment, ServiceConfig,
};
use crate::json::{opt_json, opt_text};
use crate::model::IssueV;
use crate::orchestrator::{eligible, settled, verdict, SchedV};
use crate::paths::{
    buf_parts, normalized, path_absolute, path_of, path_parent, path_parts, prefix_free, rootless,
    text_path, PartV,
};
use crate::text::{
    blank_is_white_space, line_feed_at, lines_of, lowercase, texts, trimmed, trimmed_back,
    white_space,
};
use crate::workflow::{
    fence, fence_at, loads, matter_of, with_line_feeds, Matter, WorkflowDefinition,
};
use crate::yaml::{yaml_as_json, yaml_entry, yaml_parsed, YamlV};

verus! {

broadcast use vstd::string::group_string_axioms;

/// The entry at that place is the first with that key.
pub open spec fn first_entry(entries: Seq<(YamlV, YamlV)>, key: Seq<char>, place: int) -> bool {
    &&& 0 <= place < entries.len()
    &&& entries[place].0 == YamlV::Str(key)
    &&& forall|i: int| 0 <= i < place ==> (#[trigger] entries[i]).0 != YamlV::Str(key)
}

proof fn yaml_entry_is_the_first(entries: Seq<(YamlV, YamlV)>, key: Seq<char>) -> (place: int)
    ensures
        match yaml_entry(entries, key) {
            Some(value) => first_entry(entries, key, place) && entries[place].1 == value,
            None => forall|i: int|
                0 <= i < entries.len() ==> (#[trigger] entries[i]).0 != YamlV::Str(key),
        },
    decreases entries.len(),
{
    if entries.len() == 0 {
        0
    } else if entries[0].0 == YamlV::Str(key) {
        0
    } else {
        let rest = entries.drop_first();
        let place = yaml_entry_is_the_first(rest, key);
        assert forall|i: int| 1 <= i < entries.len() implies #[trigger] entries[i] == rest[i
            - 1] by {}
        place + 1
    }
}

/// A value of a mapping is that of the first entry whose key is the string; what is
/// no mapping, but for tags in front of it, has none.
pub proof fn value_is_that_of_its_key(value: YamlV, key: Seq<char>) -> (place: int)
    ensures
        match value.untagged() {
            YamlV::Mapping(entries) => match value.get(key) {
                Some(found) => first_entry(entries, key, place) && entries[place].1 == found,
                None => forall|i: int|
                    0 <= i < entries.len() ==> (#[trigger] entries[i]).0 != YamlV::Str(key),
            },
            _ => value.get(key) is None,
        },
{
    match value.untagged() {
        YamlV::Mapping(entries) => yaml_entry_is_the_first(entries, key),
        _ => 0,
    }
}

/// The setting with that key in the section of that name.
pub open spec fn at(root: YamlV, section: Seq<char>, key: Seq<char>) -> Option<YamlV> {
    match root.get(section) {
        Some(found) => found.get(key),
        None => None,
    }
}

/// The setting as a text without white space at its ends; none where it is no text
/// or where there is nothing else in it.
pub open spec fn text_at(root: YamlV, section: Seq<char>, key: Seq<char>) -> Option<Seq<char>> {
    match at(root, section, key) {
        Some(value) => match value.untagged() {
            YamlV::Str(text) => if forall|i: int|
                0 <= i < text.len() ==> white_space(#[trigger] text[i]) {
                None
            } else {
                Some(trimmed(text))
            },
            _ => None,
        },
        None => None,
    }
}

/// The setting as a number; none where it is no integer of 64 bits.
pub open spec fn number_at(root: YamlV, section: Seq<char>, key: Seq<char>) -> Option<int> {
    match at(root, section, key) {
        Some(value) => match value.untagged() {
            YamlV::PosInt(n) => if n <= i64::MAX {
                Some(n as int)
            } else {
                None
            },
            YamlV::NegInt(n) => Some(n as int),
            _ => None,
        },
        None => None,
    }
}

/// The setting as a list.
pub open spec fn list_at(root: YamlV, section: Seq<char>, key: Seq<char>) -> Option<Seq<YamlV>> {
    match at(root, section, key) {
        Some(value) => match value.untagged() {
            YamlV::Sequence(items) => Some(items),
            _ => None,
        },
        None => None,
    }
}

proof fn text_settings_are_trimmed(root: YamlV, name: Seq<char>, key: Seq<char>)
    ensures
        text_setting(section(root, name), key) == text_at(root, name, key),
{
    if let Some(value) = at(root, name, key) {
        if let YamlV::Str(text) = value.untagged() {
            blank_is_white_space(text);
        }
    }
}

/// The settings of the tracker are those under `tracker`, each under its own name.
/// The endpoint and the states have defaults; a key that is a dollar sign with the
/// name of a variable behind it is looked up.
pub proof fn tracker_settings_are_under_their_names(
    config: ServiceConfig,
    workflow: WorkflowDefinition,
    env: Environment,
)
    requires
        config.is_of(workflow, env),
    ensures
        ({
            let root = workflow.config@;
            &&& opt_text(config.tracker.kind) == text_at(root, "tracker"@, "kind"@)
            &&& opt_text(config.tracker.project_slug) == text_at(
                root,
                "tracker"@,
                "project_slug"@,
            )
            &&& config.tracker.endpoint@ == (match text_at(root, "tracker"@, "endpoint"@) {
                Some(endpoint) => endpoint,
                None => "https://api.linear.app/graphql"@,
            })
            &&& opt_text(config.tracker.api_key) == secret_of(
                text_at(root, "tracker"@, "api_key"@),
                env,
            )
            &&& texts(config.tracker.active_states@) == (match list_at(
                root,
                "tracker"@,
                "active_states"@,
            ) {
                Some(items) => filled_texts(items),
                None => seq!["Todo"@, "In Progress"@],
            })
            &&& texts(config.tracker.terminal_states@) == (match list_at(
                root,
                "tracker"@,
                "terminal_states"@,
            ) {
                Some(items) => filled_texts(items),
                None => seq!["Closed"@, "Cancelled"@, "Canceled"@, "Duplicate"@, "Done"@],
            })
        }),
{
    let root = workflow.config@;
    text_settings_are_trimmed(root, "tracker"@, "kind"@);
    text_settings_are_trimmed(root, "tracker"@, "project_slug"@);
    text_settings_are_trimmed(root, "tracker"@, "endpoint"@);
    text_settings_are_trimmed(root, "tracker"@, "api_key"@);
}

/// The scripts are those under `hooks`, each under its own name, and so is the time
/// that they may take.
pub proof fn scripts_are_under_their_names(
    config: ServiceConfig,
    workflow: WorkflowDefinition,
    env: Environment,
)
    requires
        config.is_of(workflow, env),
    ensures
        ({
            let root = workflow.config@;
            let hooks = config.hooks;
            &&& opt_text(hooks.after_create) == text_at(root, "hooks"@, "after_create"@)
            &&& opt_text(hooks.before_run) == text_at(root, "hooks"@, "before_run"@)
            &&& opt_text(hooks.after_run) == text_at(root, "hooks"@, "after_run"@)
            &&& opt_text(hooks.before_remove) == text_at(root, "hooks"@, "before_remove"@)
            &&& hooks.timeout_ms == (match number_at(root, "hooks"@, "timeout_ms"@) {
                Some(n) => n,
                None => 60_000,
            })
        }),
{
    let root = workflow.config@;
    text_settings_are_trimmed(root, "hooks"@, "after_create"@);
    text_settings_are_trimmed(root, "hooks"@, "before_run"@);
    text_settings_are_trimmed(root, "hooks"@, "after_run"@);
    text_settings_are_trimmed(root, "hooks"@, "before_remove"@);
}

/// The numbers, the command and the prompt are those of the workflow, each under its
/// own name; what is left out has its default. A number of agents must fit into a
/// `usize`, as every one does on 64 bits.
pub proof fn numbers_are_under_their_names(
    config: ServiceConfig,
    workflow: WorkflowDefinition,
    env: Environment,
)
    requires
        config.is_of(workflow, env),
        first_fault(workflow.config@, env) is None,
    ensures
        ({
            let root = workflow.config@;
            &&& config.prompt_template@ == workflow.prompt_template@
            &&& config.polling.interval_ms == (match number_at(
                root,
                "polling"@,
                "interval_ms"@,
            ) {
                Some(n) => n,
                None => 30_000,
            })
            &&& i64::MAX <= usize::MAX ==> config.agent.max_concurrent_agents == (
            match number_at(root, "agent"@, "max_concurrent_agents"@) {
                Some(n) => n,
                None => 10,
            })
            &&& config.agent.max_turns == (match number_at(root, "agent"@, "max_turns"@) {
                Some(n) => n,
                None => 20,
            })
            &&& config.agent.max_retry_backoff_ms == (match number_at(
                root,
                "agent"@,
                "max_retry_backoff_ms"@,
            ) {
                Some(n) => n,
                None => 300_000,
            })
            &&& config.codex.command@ == (match text_at(root, "codex"@, "command"@) {
                Some(command) => command,
                None => "codex app-server"@,
            })
            &&& config.codex.turn_timeout_ms == (match number_at(
                root,
                "codex"@,
                "turn_timeout_ms"@,
            ) {
                Some(n) => n,
                None => 3_600_000,
            })
            &&& config.codex.read_timeout_ms == (match number_at(
                root,
                "codex"@,
                "read_timeout_ms"@,
            ) {
                Some(n) => n,
                None => 5_000,
            })
            &&& config.codex.stall_timeout_ms == (match number_at(
                root,
                "codex"@,
                "stall_timeout_ms"@,
            ) {
                Some(n) => n,
                None => 300_000,
            })
            &&& match number_at(root, "server"@, "port"@) {
                Some(n) => config.server.port matches Some(port) && port == n,
                None => config.server.port is None,
            }
        }),
{
    text_settings_are_trimmed(workflow.config@, "codex"@, "command"@);
}

/// The policies are those under `codex`, each under its own name, as JSON.
pub proof fn policies_are_under_their_names(workflow: WorkflowDefinition)
    requires
        workflow.policies.are_of(workflow.config@),
    ensures
        opt_json(workflow.policies.approval_policy) == (match at(
            workflow.config@,
            "codex"@,
            "approval_policy"@,
        ) {
            Some(value) => yaml_as_json(value),
            None => None,
        }),
        opt_json(workflow.policies.thread_sandbox) == (match at(
            workflow.config@,
            "codex"@,
            "thread_sandbox"@,
        ) {
            Some(value) => yaml_as_json(value),
            None => None,
        }),
        opt_json(workflow.policies.turn_sandbox_policy) == (match at(
            workflow.config@,
            "codex"@,
            "turn_sandbox_policy"@,
        ) {
            Some(value) => yaml_as_json(value),
            None => None,
        }),
{
}

/// A number that is set is positive.
pub open spec fn positive_at(root: YamlV, section: Seq<char>, key: Seq<char>) -> bool {
    number_at(root, section, key) matches Some(n) ==> n > 0
}

/// What is accepted: every number that is set is positive, but for the port, which
/// may be zero, and for the time without reports, which may be anything; the turns
/// fit into 32 bits and the port into 16; and what the place of the workspaces
/// refers to is there.
pub proof fn accepted_settings_are_in_range(root: YamlV, env: Environment)
    ensures
        first_fault(root, env) is None <==> {
            &&& positive_at(root, "hooks"@, "timeout_ms"@)
            &&& positive_at(root, "agent"@, "max_concurrent_agents"@)
            &&& positive_at(root, "agent"@, "max_turns"@)
            &&& (number_at(root, "agent"@, "max_turns"@) matches Some(n) ==> n <= 4_294_967_295)
            &&& positive_at(root, "agent"@, "max_retry_backoff_ms"@)
            &&& positive_at(root, "codex"@, "turn_timeout_ms"@)
            &&& positive_at(root, "codex"@, "read_timeout_ms"@)
            &&& (number_at(root, "server"@, "port"@) matches Some(n) ==> 0 <= n <= 65_535)
            &&& positive_at(root, "polling"@, "interval_ms"@)
            &&& (text_at(root, "workspace"@, "root"@) matches Some(value) ==> expanded(
                value,
                env,
            ) is Ok)
        },
{
    text_settings_are_trimmed(root, "workspace"@, "root"@);
}

/// What is refused is named: the field is that of a setting that is out of range, and
/// the reason says what it must be.
pub proof fn refused_setting_is_named(root: YamlV, env: Environment)
    requires
        first_fault(root, env) is Some,
    ensures
        ({
            let (field, reason) = first_fault(root, env)->0;
            ||| field == "workspace.root"@ && (text_at(
                root,
                "workspace"@,
                "root"@,
            ) matches Some(value) && expanded(value, env) == Err::<Seq<char>, Seq<char>>(reason))
            ||| field == "hooks.timeout_ms"@ && (number_at(
                root,
                "hooks"@,
                "timeout_ms"@,
            ) matches Some(n) && n <= 0 && reason == if n < 0 {
                "must be a non-negative integer"@
            } else {
                "must be positive"@
            })
            ||| field == "max_concurrent_agents"@ && reason == "must be positive"@ && !positive_at(
                root,
                "agent"@,
                "max_concurrent_agents"@,
            )
            ||| field == "max_turns"@ && reason == "must be a positive u32"@ && (number_at(
                root,
                "agent"@,
                "max_turns"@,
            ) matches Some(n) && !(0 < n <= 4_294_967_295))
            ||| field == "max_retry_backoff_ms"@ && reason == "must be positive"@ && !positive_at(
                root,
                "agent"@,
                "max_retry_backoff_ms"@,
            )
            ||| field == "turn_timeout_ms"@ && reason == "must be positive"@ && !positive_at(
                root,
                "codex"@,
                "turn_timeout_ms"@,
            )
            ||| field == "read_timeout_ms"@ && reason == "must be positive"@ && !positive_at(
                root,
                "codex"@,
                "read_timeout_ms"@,
            )
            ||| field == "server.port"@ && reason == "must be between 0 and 65535"@ && (number_at(
                root,
                "server"@,
                "port"@,
            ) matches Some(n) && !(0 <= n <= 65_535))
            ||| field == "interval_ms"@ && reason == "must be positive"@ && !positive_at(
                root,
                "polling"@,
                "interval_ms"@,
            )
        }),
{
    text_settings_are_trimmed(root, "workspace"@, "root"@);
}

/// Issues can be dispatched just where the tracker is Linear, with a key, a project
/// and a command that are more than white space. The first of these that fails is
/// named.
pub proof fn dispatch_needs_tracker_key_project_and_command(config: ServiceConfig)
    ensures
        config.dispatch_fault() is None <==> {
            &&& config.tracker.kind matches Some(kind) && kind@ == "linear"@
            &&& config.tracker.api_key matches Some(key) && exists|i: int|
                0 <= i < key@.len() && !white_space(#[trigger] key@[i])
            &&& config.tracker.project_slug matches Some(slug) && exists|i: int|
                0 <= i < slug@.len() && !white_space(#[trigger] slug@[i])
            &&& exists|i: int|
                0 <= i < config.codex.command@.len() && !white_space(
                    #[trigger] config.codex.command@[i],
                )
        },
        config.dispatch_fault() matches Some((field, _)) ==> {
            let linear = config.tracker.kind matches Some(kind) && kind@ == "linear"@;
            let keyed = config.tracker.api_key matches Some(key) && exists|i: int|
                0 <= i < key@.len() && !white_space(#[trigger] key@[i]);
            let placed = config.tracker.project_slug matches Some(slug) && exists|i: int|
                0 <= i < slug@.len() && !white_space(#[trigger] slug@[i]);
            field == if !linear {
                "tracker.kind"@
            } else if !keyed {
                "tracker.api_key"@
            } else if !placed {
                "tracker.project_slug"@
            } else {
                "codex.command"@
            }
        },
{
    blank_is_white_space(Seq::<char>::empty());
    if let Some(key) = config.tracker.api_key {
        blank_is_white_space(key@);
    }
    if let Some(slug) = config.tracker.project_slug {
        blank_is_white_space(slug@);
    }
    blank_is_white_space(config.codex.command@);
}

/// A name of a variable: letters, digits and underscores.
pub open spec fn is_name(name: Seq<char>) -> bool {
    &&& name.len() > 0
    &&& forall|i: int|
        0 <= i < name.len() ==> 'a' <= #[trigger] name[i] <= 'z' || 'A' <= name[i] <= 'Z' || '0'
            <= name[i] <= '9' || name[i] == '_'
}

/// A dollar sign with a name behind it stands for the variable of that name, which
/// must be there, and for a secret must hold more than white space.
pub proof fn variables_are_looked_up(name: Seq<char>, env: Environment)
    requires
        is_name(name),
    ensures
        env.vars@.contains_key(name) ==> expanded(seq!['$'] + name, env) == Ok::<
            Seq<char>,
            Seq<char>,
        >(env.vars@[name]@),
        !env.vars@.contains_key(name) ==> expanded(seq!['$'] + name, env) is Err,
        env.vars@.contains_key(name) && (exists|i: int|
            0 <= i < env.vars@[name]@.len() && !white_space(#[trigger] env.vars@[name]@[i]))
            ==> secret_of(Some(seq!['$'] + name), env) == Some(env.vars@[name]@),
        env.vars@.contains_key(name) && (forall|i: int|
            0 <= i < env.vars@[name]@.len() ==> white_space(#[trigger] env.vars@[name]@[i]))
            ==> secret_of(Some(seq!['$'] + name), env) is None,
        !env.vars@.contains_key(name) ==> secret_of(Some(seq!['$'] + name), env) is None,
{
    let value = seq!['$'] + name;
    assert(value[0] == '$');
    assert(value.skip(1) =~= name);
    assert forall|i: int| 1 <= i < value.len() implies name_char(#[trigger] value[i]) by {
        assert(value[i] == name[i - 1]);
    }
    assert(variable_of(value) == Some(name));
    if env.vars@.contains_key(name) {
        blank_is_white_space(env.vars@[name]@);
    }
}

/// What is no dollar sign with a name behind it is taken as it stands; a path may
/// begin with a tilde besides.
pub proof fn other_texts_are_taken_as_they_stand(text: Seq<char>, env: Environment)
    requires
        !(text.len() > 0 && text[0] == '$' && is_name(text.skip(1))),
    ensures
        secret_of(Some(text), env) == Some(text),
        !(text.len() > 0 && text[0] == '~') ==> expanded(text, env) == Ok::<Seq<char>, Seq<char>>(
            text,
        ),
{
    if variable_of(text) is Some {
        let rest = text.skip(1);
        assert forall|i: int| 0 <= i < rest.len() implies 'a' <= #[trigger] rest[i] <= 'z' || 'A'
            <= rest[i] <= 'Z' || '0' <= rest[i] <= '9' || rest[i] == '_' by {
            assert(name_char(text[i + 1]));
        }
        assert(is_name(text.skip(1)));
    }
}

/// A tilde that is all of a path, or is followed by a slash, stands for the home
/// directory, which must be known; any other tilde is a character like the others.
pub proof fn tilde_stands_for_home(rest: Seq<char>, env: Environment)
    ensures
        rest.len() == 0 || rest[0] == '/' ==> expanded(seq!['~'] + rest, env) == (
        if env.vars@.contains_key("HOME"@) {
            Ok(env.vars@["HOME"@]@ + rest)
        } else {
            Err("HOME is not set for ~ expansion"@)
        }),
        rest.len() > 0 && rest[0] != '/' ==> expanded(seq!['~'] + rest, env) == Ok::<
            Seq<char>,
            Seq<char>,
        >(seq!['~'] + rest),
{
    let value = seq!['~'] + rest;
    assert(value[0] == '~');
    assert(value.skip(1) =~= rest);
    if rest.len() > 0 {
        assert(value[1] == rest[0]);
    }
}

/// The text of an item, where it is one and holds more than white space.
pub open spec fn item_text(item: YamlV) -> Option<Seq<char>> {
    match item.untagged() {
        YamlV::Str(text) => if exists|i: int|
            0 <= i < text.len() && !white_space(#[trigger] text[i]) {
            Some(trimmed(text))
        } else {
            None
        },
        _ => None,
    }
}

/// A list of texts holds, in their order, those items that are texts with more than
/// white space in them, without the white space at their ends.
pub proof fn lists_keep_their_texts(items: Seq<YamlV>) -> (places: Seq<int>)
    ensures
        places.len() == filled_texts(items).len(),
        forall|i: int|
            0 <= i < places.len() ==> 0 <= #[trigger] places[i] < items.len() && item_text(
                items[places[i]],
            ) == Some(filled_texts(items)[i]),
        forall|i: int, j: int|
            0 <= i < j < places.len() ==> #[trigger] places[i] < #[trigger] places[j],
        forall|p: int|
            0 <= p < items.len() && item_text(#[trigger] items[p]) is Some ==> places.contains(p),
    decreases items.len(),
{
    if items.len() == 0 {
        Seq::empty()
    } else {
        let front = items.drop_last();
        let before = lists_keep_their_texts(front);
        let last = items.len() - 1;
        if let YamlV::Str(text) = items.last().untagged() {
            blank_is_white_space(text);
        }
        let places = if item_text(items[last]) is Some {
            before.push(last)
        } else {
            before
        };
        assert forall|i: int| 0 <= i < places.len() implies 0 <= #[trigger] places[i]
            < items.len() && item_text(items[places[i]]) == Some(filled_texts(items)[i]) by {
            if i < before.len() {
                assert(places[i] == before[i]);
                assert(front[before[i]] == items[before[i]]);
            }
        }
        assert forall|i: int, j: int| 0 <= i < j < places.len() implies #[trigger] places[i]
            < #[trigger] places[j] by {
            assert(places[i] == before[i]);
            if j < before.len() {
                assert(places[j] == before[j]);
            }
        }
        assert forall|p: int|
            0 <= p < items.len() && item_text(#[trigger] items[p]) is Some implies places.contains(
            p,
        ) by {
            if p < front.len() {
                assert(front[p] == items[p]);
                let i = choose|i: int| 0 <= i < before.len() && before[i] == p;
                assert(places[i] == p);
            } else {
                assert(places[before.len() as int] == p);
            }
        }
        places
    }
}

/// The entry sets a limit for the state.
pub open spec fn limits(entry: (YamlV, YamlV), state: Seq<char>) -> bool {
    &&& entry.0.untagged() matches YamlV::Str(name) && lowercase(name) == state
    &&& entry.1.untagged() matches YamlV::PosInt(n) && 0 < n <= i64::MAX
}

/// The limit of a state is the one that the last entry for it sets, whatever the case
/// of its letters. Where no entry sets one that is positive, the state has none.
pub proof fn last_limit_of_a_state_counts(entries: Seq<(YamlV, YamlV)>, state: Seq<char>) -> (place:
    int)
    requires
        forall|i: int|
            0 <= i < entries.len() ==> ((#[trigger] entries[i]).1.untagged() matches YamlV::NegInt(
                n,
            ) ==> n < 0),
    ensures
        state_limits(entries).contains_key(state) <==> exists|i: int|
            0 <= i < entries.len() && limits(#[trigger] entries[i], state),
        state_limits(entries).contains_key(state) ==> {
            &&& 0 <= place < entries.len()
            &&& limits(entries[place], state)
            &&& entries[place].1.untagged() matches YamlV::PosInt(n) && state_limits(
                entries,
            )[state] == n as usize
            &&& forall|i: int| place < i < entries.len() ==> !limits(#[trigger] entries[i], state)
        },
    decreases entries.len(),
{
    if entries.len() == 0 {
        0
    } else {
        let front = entries.drop_last();
        assert forall|i: int| 0 <= i < front.len() implies ((
        #[trigger] front[i]).1.untagged() matches YamlV::NegInt(n) ==> n < 0) by {
            assert(front[i] == entries[i]);
        }
        let before = last_limit_of_a_state_counts(front, state);
        let last = entries.len() - 1;
        assert(entries[last] == entries.last());
        let place = if limits(entries[last], state) {
            last
        } else {
            before
        };
        assert forall|i: int| 0 <= i < entries.len() - 1 implies #[trigger] entries[i]
            == front[i] by {}
        if exists|i: int| 0 <= i < entries.len() && limits(#[trigger] entries[i], state) {
            let i = choose|i: int| 0 <= i < entries.len() && limits(#[trigger] entries[i], state);
            if i < last {
                assert(limits(front[i], state));
            }
        }
        place
    }
}

/// The limits of the states are those under `max_concurrent_agents_by_state`.
pub proof fn limits_are_under_their_name(
    config: ServiceConfig,
    workflow: WorkflowDefinition,
    env: Environment,
)
    requires
        config.is_of(workflow, env),
    ensures
        config.agent.max_concurrent_agents_by_state@ == (match at(
            workflow.config@,
            "agent"@,
            "max_concurrent_agents_by_state"@,
        ) {
            Some(value) => match value.untagged() {
                YamlV::Mapping(entries) => state_limits(entries),
                _ => Map::empty(),
            },
            None => Map::empty(),
        }),
{
}

/// The workspaces are where the workflow says. What is no absolute path lies below
/// the directory of the workflow; where the workflow says nothing, they are in
/// `symphony_workspaces` below the directory for temporary files.
pub proof fn workspaces_are_where_the_workflow_says(
    config: ServiceConfig,
    workflow: WorkflowDefinition,
    env: Environment,
)
    requires
        config.is_of(workflow, env),
    ensures
        ({
            let place = buf_parts(config.workspace.root);
            let dir = path_of(&config.workflow_dir);
            let temp = path_of(&env.temp_dir);
            match text_at(workflow.config@, "workspace"@, "root"@) {
                Some(value) => expanded(value, env) matches Ok(text) ==> {
                    let path = text_path(text);
                    &&& path_absolute(path) && prefix_free(path_parts(path)) ==> place
                        == normalized(path_parts(path))
                    &&& !path_absolute(path) && rootless(path_parts(path)) && path_absolute(dir)
                        && prefix_free(path_parts(dir)) ==> place == normalized(
                        path_parts(dir) + path_parts(path),
                    )
                },
                None => path_absolute(temp) && prefix_free(path_parts(temp)) ==> place
                    == normalized(
                    path_parts(temp).push(PartV::Normal(encode_utf8("symphony_workspaces"@))),
                ),
            }
        }),
{
    text_settings_are_trimmed(workflow.config@, "workspace"@, "root"@);
    let temp = path_parts(path_of(&env.temp_dir));
    let name = PartV::Normal(encode_utf8("symphony_workspaces"@));
    assert(temp + seq![name] =~= temp.push(name));
}

proof fn first_line_comes_first(lines: Seq<Seq<char>>)
    requires
        lines.len() > 0,
    ensures
        with_line_feeds(lines) == lines[0] + seq!['\n'] + with_line_feeds(lines.drop_first()),
    decreases lines.len(),
{
    if lines.len() == 1 {
        assert(with_line_feeds(lines.drop_first()) =~= Seq::<char>::empty());
        assert(with_line_feeds(lines.drop_last()) =~= Seq::<char>::empty());
        assert(with_line_feeds(lines) =~= lines[0] + seq!['\n']
            + with_line_feeds(lines.drop_first()));
    } else {
        let front = lines.drop_last();
        first_line_comes_first(front);
        assert(front.drop_first() =~= lines.drop_first().drop_last());
        assert(lines.drop_first().last() == lines.last());
        assert(with_line_feeds(lines) =~= lines[0] + seq!['\n']
            + with_line_feeds(lines.drop_first()));
    }
}

/// A line of a text: no line feed is in it, and no carriage return at its end.
pub open spec fn is_line(line: Seq<char>) -> bool {
    &&& !line.contains('\n')
    &&& line.len() > 0 ==> line.last() != '\r'
}

proof fn line_feed_is_behind_the_line(line: Seq<char>, rest: Seq<char>)
    requires
        !line.contains('\n'),
    ensures
        line_feed_at(line + seq!['\n'] + rest) == line.len(),
    decreases line.len(),
{
    let all = line + seq!['\n'] + rest;
    if line.len() == 0 {
        assert(all[0] == '\n');
    } else {
        let shorter = line.drop_first();
        assert(line.contains(line[0]));
        assert(!shorter.contains('\n')) by {
            if shorter.contains('\n') {
                let i = choose|i: int| 0 <= i < shorter.len() && shorter[i] == '\n';
                assert(line[i + 1] == '\n');
            }
        }
        line_feed_is_behind_the_line(shorter, rest);
        assert(all.drop_first() =~= shorter + seq!['\n'] + rest);
        assert(all[0] == line[0]);
    }
}

/// Lines that are put behind each other are read back one by one.
pub proof fn lines_are_read_back(lines: Seq<Seq<char>>)
    requires
        forall|i: int| 0 <= i < lines.len() ==> is_line(#[trigger] lines[i]),
    ensures
        lines_of(with_line_feeds(lines)) == lines,
    decreases lines.len(),
{
    if lines.len() > 0 {
        let line = lines[0];
        let rest = lines.drop_first();
        let text = with_line_feeds(lines);
        assert(is_line(line));
        first_line_comes_first(lines);
        line_feed_is_behind_the_line(line, with_line_feeds(rest));
        assert forall|i: int| 0 <= i < rest.len() implies is_line(#[trigger] rest[i]) by {
            assert(rest[i] == lines[i + 1]);
        }
        lines_are_read_back(rest);
        assert(text.take(line.len() as int) =~= line);
        assert(text.skip(line.len() as int + 1) =~= with_line_feeds(rest));
        assert(lines_of(text) =~= lines);
    } else {
        assert(lines_of(with_line_feeds(lines)) =~= lines);
    }
}

proof fn fence_behind_others(before: Seq<Seq<char>>, line: Seq<char>, after: Seq<Seq<char>>)
    requires
        forall|i: int| 0 <= i < before.len() ==> !fence(#[trigger] before[i]),
        fence(line),
    ensures
        fence_at(before + seq![line] + after) == before.len(),
    decreases before.len(),
{
    let all = before + seq![line] + after;
    if before.len() == 0 {
        assert(all[0] == line);
    } else {
        let rest = before.drop_first();
        assert forall|i: int| 0 <= i < rest.len() implies !fence(#[trigger] rest[i]) by {
            assert(rest[i] == before[i + 1]);
        }
        fence_behind_others(rest, line, after);
        assert(all.drop_first() =~= rest + seq![line] + after);
        assert(all[0] == before[0]);
    }
}

/// Three dashes with nothing but white space behind them.
pub open spec fn is_dashes(line: Seq<char>) -> bool {
    &&& line.len() >= 3
    &&& line[0] == '-' && line[1] == '-' && line[2] == '-'
    &&& forall|i: int| 3 <= i < line.len() ==> white_space(#[trigger] line[i])
}

/// A line closes the front matter just where it is three dashes, with nothing but
/// white space behind them.
pub proof fn fences_are_dashes(line: Seq<char>)
    ensures
        fence(line) <==> is_dashes(line),
    decreases line.len(),
{
    reveal_strlit("---");
    if line.len() > 0 && white_space(line.last()) {
        let front = line.drop_last();
        fences_are_dashes(front);
        if is_dashes(front) {
            assert forall|i: int| 3 <= i < line.len() implies white_space(#[trigger] line[i]) by {
                if i < front.len() {
                    assert(front[i] == line[i]);
                }
            }
            assert(front[0] == line[0] && front[1] == line[1] && front[2] == line[2]);
        }
        if is_dashes(line) {
            if line.len() == 3 {
                assert(line.last() == '-');
                assert(!white_space('-'));
            } else {
                assert(front[0] == line[0] && front[1] == line[1] && front[2] == line[2]);
                assert forall|i: int| 3 <= i < front.len() implies white_space(
                    #[trigger] front[i],
                ) by {
                    assert(front[i] == line[i]);
                }
            }
        }
    } else {
        assert(trimmed_back(line) == line);
        if is_dashes(line) {
            assert(line.len() == 3) by {
                if line.len() > 3 {
                    assert(white_space(line[line.len() - 1]));
                }
            }
            assert(line =~= "---"@);
        }
        if fence(line) {
            assert(line == "---"@);
            assert(line.len() == 3);
        }
    }
}

/// Between two lines of dashes, of which one is the first of the file, there is the
/// front matter, up to the first line of dashes behind it. All that follows is the
/// prompt. The front matter must be closed, and without dashes in the first line
/// there is none.
pub proof fn front_matter_lies_between_dashes(
    opening: Seq<char>,
    front: Seq<Seq<char>>,
    closing: Seq<char>,
    prompt: Seq<Seq<char>>,
)
    requires
        is_line(opening),
        is_line(closing),
        is_dashes(closing),
        forall|i: int| 0 <= i < front.len() ==> is_line(#[trigger] front[i]),
        forall|i: int| 0 <= i < front.len() ==> !is_dashes(#[trigger] front[i]),
        forall|i: int| 0 <= i < prompt.len() ==> is_line(#[trigger] prompt[i]),
    ensures
        is_dashes(opening) ==> matter_of(
            with_line_feeds(seq![opening] + front + seq![closing] + prompt),
        ) == (Matter::Fenced { yaml: with_line_feeds(front), body: with_line_feeds(prompt) }),
        is_dashes(opening) ==> matter_of(with_line_feeds(seq![opening] + front))
            == Matter::Unterminated,
        !is_dashes(opening) ==> matter_of(
            with_line_feeds(seq![opening] + front + seq![closing] + prompt),
        ) == Matter::Absent,
{
    let lines = seq![opening] + front + seq![closing] + prompt;
    let rest = front + seq![closing] + prompt;
    assert forall|i: int| 0 <= i < lines.len() implies is_line(#[trigger] lines[i]) by {
        if 1 <= i <= front.len() {
            assert(lines[i] == front[i - 1]);
        } else if i > front.len() + 1 {
            assert(lines[i] == prompt[i - front.len() - 2]);
        }
    }
    lines_are_read_back(lines);
    fences_are_dashes(opening);
    fences_are_dashes(closing);
    assert forall|i: int| 0 <= i < front.len() implies !fence(#[trigger] front[i]) by {
        fences_are_dashes(front[i]);
    }
    fence_behind_others(front, closing, prompt);
    assert(lines[0] == opening);
    assert(lines.drop_first() =~= rest);
    assert(rest.take(front.len() as int) =~= front);
    assert(rest.skip(front.len() as int + 1) =~= prompt);
    let open = seq![opening] + front;
    assert forall|i: int| 0 <= i < open.len() implies is_line(#[trigger] open[i]) by {
        if i > 0 {
            assert(open[i] == front[i - 1]);
        }
    }
    lines_are_read_back(open);
    assert(open[0] == opening);
    assert(open.drop_first() =~= front);
    no_fence_among(front);
}

proof fn no_fence_among(lines: Seq<Seq<char>>)
    requires
        forall|i: int| 0 <= i < lines.len() ==> !fence(#[trigger] lines[i]),
    ensures
        fence_at(lines) == lines.len(),
    decreases lines.len(),
{
    if lines.len() > 0 {
        let rest = lines.drop_first();
        assert forall|i: int| 0 <= i < rest.len() implies !fence(#[trigger] rest[i]) by {
            assert(rest[i] == lines[i + 1]);
        }
        no_fence_among(rest);
    }
}

/// A workflow that is loaded has the front matter for its settings and what follows,
/// without the white space at its ends, for its prompt; without front matter all of
/// the file is the prompt.
pub proof fn workflow_is_front_matter_and_prompt(
    path: &Path,
    content: Seq<char>,
    workflow: WorkflowDefinition,
)
    requires
        loads(path, content, Ok(workflow)),
    ensures
        match matter_of(content) {
            Matter::Absent => {
                &&& workflow.config@ == YamlV::Mapping(Seq::empty())
                &&& workflow.prompt_template@ == trimmed(content)
            },
            Matter::Unterminated => false,
            Matter::Fenced { yaml, body } => {
                &&& yaml_parsed(yaml) matches Ok(front) && front.untagged() == workflow.config@
                &&& workflow.config@ is Mapping
                &&& workflow.prompt_template@ == trimmed(body)
            },
        },
{
}

/// A program starts with the configuration that was loaded first where issues can be
/// dispatched with it, and goes on reading the file that it came from.
pub proof fn first_configuration_must_do(
    loaded: Result<ServiceConfig, ConfigError>,
    r: Result<ConfigManager, ConfigError>,
)
    requires
        begins_with(loaded, r),
    ensures
        r is Ok <==> loaded is Ok && loaded->Ok_0.dispatch_fault() is None,
        r matches Ok(manager) ==> {
            &&& manager.config() == loaded->Ok_0
            &&& manager.path() == loaded->Ok_0.workflow_path
            &&& manager.error() is None
        },
        loaded is Err ==> r is Err && r->Err_0 == loaded->Err_0,
{
}

/// A configuration that was loaded later is in force where issues can be dispatched
/// with it, and the last error is then forgotten. Otherwise the one in force stays, and
/// the error is kept in words. The file stays the same.
pub proof fn configuration_in_force_stays_good(
    before: ConfigManager,
    loaded: Result<ServiceConfig, ConfigError>,
    after: ConfigManager,
    r: Result<ServiceConfig, ConfigError>,
)
    requires
        refreshes(before, loaded, after, r),
    ensures
        r is Ok <==> loaded is Ok && loaded->Ok_0.dispatch_fault() is None,
        r is Ok ==> after.config() == loaded->Ok_0 && after.error() is None,
        r matches Ok(config) ==> config.same(after.config()),
        r is Err ==> after.config() == before.config() && after.error() == Some(
            r->Err_0.words(),
        ),
        after.path() == before.path(),
{
}

/// The directory of a workflow is the one that its file lies in.
pub proof fn workflow_lies_in_its_directory(path: PathBuf, dir: PathBuf)
    requires
        directory_of(path, dir),
        path_parent(path_of(&path)) is Some,
        buf_parts(path).len() > 0,
        buf_parts(path).last() is Normal,
    ensures
        path_of(&dir) == path_parent(path_of(&path))->0,
        buf_parts(path) == buf_parts(dir).push(buf_parts(path).last()),
{
    assert(buf_parts(path) =~= buf_parts(path).drop_last().push(buf_parts(path).last()));
}

/// A path that is not absolute lies below the current directory, and below the root
/// directory where there is no current one; an absolute path is only normalized.
pub proof fn relative_paths_lie_below_the_current_directory(path: &Path, env: Environment)
    ensures
        path_absolute(path) ==> absolute_parts(path, env) == normalized(path_parts(path)),
        !path_absolute(path) ==> absolute_parts(path, env) == normalized(
            (match env.current_dir {
                Some(dir) => buf_parts(dir),
                None => path_parts(text_path("/"@)),
            }) + path_parts(path),
        ),
{
}

/// Of two configurations with the same settings every script, limit and policy is the
/// same, and so is what they are good for: whether issues can be dispatched, which are
/// eligible, and what becomes of a session on an issue in a state.
pub proof fn same_settings_decide_alike(
    a: ServiceConfig,
    b: ServiceConfig,
    s: SchedV,
    issue: IssueV,
    allowed_claim: Option<Seq<char>>,
    state: Seq<char>,
)
    requires
        a.same(b),
    ensures
        a.dispatch_fault() == b.dispatch_fault(),
        eligible(s, issue, a, allowed_claim) == eligible(s, issue, b, allowed_claim),
        verdict(state, a) == verdict(state, b),
        opt_text(a.tracker.api_key) == opt_text(b.tracker.api_key),
        opt_text(a.tracker.project_slug) == opt_text(b.tracker.project_slug),
        a.tracker.endpoint@ == b.tracker.endpoint@,
        opt_text(a.hooks.after_create) == opt_text(b.hooks.after_create),
        opt_text(a.hooks.before_run) == opt_text(b.hooks.before_run),
        opt_text(a.hooks.after_run) == opt_text(b.hooks.after_run),
        opt_text(a.hooks.before_remove) == opt_text(b.hooks.before_remove),
        a.hooks.timeout_ms == b.hooks.timeout_ms,
        a.polling.interval_ms == b.polling.interval_ms,
        a.agent.max_turns == b.agent.max_turns,
        a.agent.max_retry_backoff_ms == b.agent.max_retry_backoff_ms,
        opt_json(a.codex.approval_policy) == opt_json(b.codex.approval_policy),
        opt_json(a.codex.thread_sandbox) == opt_json(b.codex.thread_sandbox),
        opt_json(a.codex.turn_sandbox_policy) == opt_json(b.codex.turn_sandbox_policy),
        a.codex.turn_timeout_ms == b.codex.turn_timeout_ms,
        a.codex.read_timeout_ms == b.codex.read_timeout_ms,
        a.codex.stall_timeout_ms == b.codex.stall_timeout_ms,
        a.prompt_template@ == b.prompt_template@,
        a.workspace.root == b.workspace.root,
        a.workflow_path == b.workflow_path && a.workflow_dir == b.workflow_dir,
        a.server.port == b.server.port,
{
    assert(forall|k: int|
        0 <= k < issue.blocked_by.len() ==> settled(#[trigger] issue.blocked_by[k], a) == settled(
            issue.blocked_by[k],
            b,
        ));
}

}
