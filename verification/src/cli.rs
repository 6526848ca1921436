//! The command line as plain values: which action a parsed command asks for,
//! and under which name the machine interface reports it.

use vstd::prelude::*;

use crate::commands::{self, parse_lifecycle_filter};
use crate::error::{self, Error, ErrorKind, Result};
use crate::heal::{validated_limit, HealOptions};
use crate::text::{self, copy};
use crate::types::{LaneLandRequest, LaneLifecycle, ShellKind};

verus! {

/// A parsed command.
#[allow(inconsistent_fields)]
#[derive(Debug, PartialEq, Eq)]
pub enum Command {
    Switch { create: bool, revision: Option<String>, workspace: String },
    List { json: bool, compact: bool, no_snapshot: bool },
    Doctor { json: bool, compact: bool, deep: bool },
    Heal {
        changes: Vec<String>,
        mine: bool,
        apply: bool,
        limit: usize,
        prefer_content: bool,
        json: bool,
    },
    Conflicts { revset: Option<String>, json: bool },
    Resolve { union: Option<String>, apply: bool, json: bool },
    /// `arg_count` is the number of arguments for `jj`.
    Exec { workspace: Option<String>, arg_count: usize },
    Abandon { revset: String, apply: bool, json: bool },
    Tidy { apply: bool, yes: bool, json: bool },
    Remove { yes: bool, json: bool, workspace: String },
    Merge {
        from: Option<String>,
        into: Option<String>,
        revisions: Option<String>,
        json: bool,
    },
    Skill,
    Init { target: Option<String>, json: bool },
    ConfigShow { json: bool },
    ShellInit { shell: Option<ShellKind> },
    ShellInstall { shell: Option<ShellKind> },
    Lane(LaneCommand),
}

/// A parsed lane command.
#[allow(inconsistent_fields)]
#[derive(Debug, PartialEq, Eq)]
pub enum LaneCommand {
    Open {
        name: String,
        paths: Vec<String>,
        allow_overlap: bool,
        sparse: bool,
        full: bool,
        revision: Option<String>,
        json: bool,
    },
    Claim { name: String, paths: Vec<String>, allow_overlap: bool, json: bool },
    Release { name: String, paths: Vec<String>, json: bool },
    List { json: bool, compact: bool, lifecycle: Option<String>, no_snapshot: bool },
    Sync { name: Option<String>, drop_unscoped: bool, json: bool },
    Land {
        name: String,
        message: Option<String>,
        no_gate: bool,
        gate: Option<String>,
        allow_unscoped: bool,
        close: bool,
        json: bool,
    },
    Close { name: String, json: bool },
    Abandon { name: String, yes: bool, json: bool },
    Gc { apply: bool, prune: bool, yes: bool, json: bool },
}

/// What a command asks for, with its flags checked and read.
#[allow(inconsistent_fields)]
#[derive(Debug, PartialEq, Eq)]
pub enum Action {
    Switch { create: bool, revision: Option<String>, workspace: String },
    List { json: bool, compact: bool, no_snapshot: bool },
    Doctor { json: bool, compact: bool, deep: bool },
    Heal(HealOptions),
    Conflicts { revset: Option<String>, json: bool },
    ResolveUnion { file: String, apply: bool, json: bool },
    ResolvePolicies { apply: bool, json: bool },
    Exec { workspace: Option<String> },
    Abandon { revset: String, apply: bool, json: bool },
    Tidy { apply: bool, yes: bool, json: bool },
    Remove { yes: bool, json: bool, workspace: String },
    Merge {
        from: Option<String>,
        into: Option<String>,
        revisions: Option<String>,
        json: bool,
    },
    Skill,
    Init { target: Option<String>, json: bool },
    ConfigShow { json: bool },
    ShellInit { shell: Option<ShellKind> },
    ShellInstall { shell: Option<ShellKind> },
    LaneOpen {
        name: String,
        paths: Vec<String>,
        allow_overlap: bool,
        /// None leaves it to the config.
        sparse: Option<bool>,
        revision: Option<String>,
        json: bool,
    },
    LaneClaim { name: String, paths: Vec<String>, allow_overlap: bool, json: bool },
    LaneRelease { name: String, paths: Vec<String>, json: bool },
    LaneList { json: bool, compact: bool, filter: Option<LaneLifecycle>, snapshot: bool },
    LaneSync { name: Option<String>, drop_unscoped: bool, json: bool },
    LaneLand { name: String, request: LaneLandRequest, json: bool },
    LaneClose { name: String, json: bool },
    LaneAbandon { name: String, yes: bool, json: bool },
    LaneGc { apply: bool, prune: bool, yes: bool, json: bool },
}

// ---------------------------------------------------------------------------
// The mutation lock

/// When a command holds the repo-wide mutation lock.
#[derive(Clone, Copy, Debug, PartialEq, Eq, Structural)]
pub enum LockScope {
    /// Never: it changes nothing that others could be changing.
    Never,
    /// All the time.
    Whole,
    /// While it writes. What comes before can take long, such as a question to
    /// the user or the landing gate, and is decided again under the lock or
    /// checked by jj itself.
    Writes,
}

/// The lock scope of a command that only plans unless told to apply.
pub open spec fn applied_scope(apply: bool) -> LockScope {
    if apply {
        LockScope::Writes
    } else {
        LockScope::Never
    }
}

/// When each command holds the lock: every one that changes lanes, history or
/// workspaces does, and a plan does not.
pub open spec fn scope_of(action: Action) -> LockScope {
    match action {
        Action::LaneOpen { .. }
        | Action::LaneClaim { .. }
        | Action::LaneRelease { .. }
        | Action::LaneSync { .. }
        | Action::LaneClose { .. }
        | Action::Exec { .. }
        | Action::Merge { .. } => LockScope::Whole,
        Action::LaneLand { .. } | Action::LaneAbandon { .. } | Action::Remove { .. } =>
            LockScope::Writes,
        Action::LaneGc { apply, .. } => applied_scope(apply),
        Action::Heal(options) => applied_scope(options.apply),
        Action::ResolveUnion { apply, .. } => applied_scope(apply),
        Action::ResolvePolicies { apply, .. } => applied_scope(apply),
        Action::Abandon { apply, .. } => applied_scope(apply),
        Action::Tidy { apply, .. } => applied_scope(apply),
        Action::Switch { .. }
        | Action::List { .. }
        | Action::Doctor { .. }
        | Action::Conflicts { .. }
        | Action::Skill
        | Action::Init { .. }
        | Action::ConfigShow { .. }
        | Action::ShellInit { .. }
        | Action::ShellInstall { .. }
        | Action::LaneList { .. } => LockScope::Never,
    }
}

fn scope_if(apply: bool) -> (res: LockScope)
    ensures
        res == applied_scope(apply),
{
    if apply {
        LockScope::Writes
    } else {
        LockScope::Never
    }
}

/// When a command holds the mutation lock.
pub fn lock_scope(action: &Action) -> (res: LockScope)
    ensures
        res == scope_of(*action),
{
    match action {
        Action::LaneOpen { .. }
        | Action::LaneClaim { .. }
        | Action::LaneRelease { .. }
        | Action::LaneSync { .. }
        | Action::LaneClose { .. }
        | Action::Exec { .. }
        | Action::Merge { .. } => LockScope::Whole,
        Action::LaneLand { .. } | Action::LaneAbandon { .. } | Action::Remove { .. } =>
            LockScope::Writes,
        Action::LaneGc { apply, .. } => scope_if(*apply),
        Action::Heal(options) => scope_if(options.apply),
        Action::ResolveUnion { apply, .. } => scope_if(*apply),
        Action::ResolvePolicies { apply, .. } => scope_if(*apply),
        Action::Abandon { apply, .. } => scope_if(*apply),
        Action::Tidy { apply, .. } => scope_if(*apply),
        _ => LockScope::Never,
    }
}

// ---------------------------------------------------------------------------
// The machine interface

/// The label of a command in the machine interface, where its errors are
/// reported there.
pub open spec fn machine_label(command: Command) -> Option<Seq<char>> {
    match command {
        Command::Heal { json: true, .. } => Some("heal"@),
        Command::Conflicts { json: true, .. } => Some("conflicts"@),
        Command::Resolve { json: true, .. } => Some("resolve"@),
        Command::Abandon { json: true, .. } => Some("abandon"@),
        Command::Tidy { json: true, .. } => Some("tidy"@),
        Command::Remove { json: true, .. } => Some("remove"@),
        Command::Merge { json: true, .. } => Some("merge"@),
        Command::Init { json: true, .. } => Some("init"@),
        Command::Lane(LaneCommand::Open { json: true, .. }) => Some("lane open"@),
        Command::Lane(LaneCommand::Claim { json: true, .. }) => Some("lane claim"@),
        Command::Lane(LaneCommand::Release { json: true, .. }) => Some("lane release"@),
        Command::Lane(LaneCommand::Sync { json: true, .. }) => Some("lane sync"@),
        Command::Lane(LaneCommand::Land { json: true, .. }) => Some("lane land"@),
        Command::Lane(LaneCommand::Close { json: true, .. }) => Some("lane close"@),
        Command::Lane(LaneCommand::Abandon { json: true, .. }) => Some("lane abandon"@),
        Command::Lane(LaneCommand::Gc { json: true, .. }) => Some("lane gc"@),
        _ => None,
    }
}

/// The label under which the errors of a command are reported in the machine
/// interface; none where they are only rendered for humans.
pub fn machine_context(command: &Command) -> (res: Option<&'static str>)
    ensures
        match res {
            Some(label) => machine_label(*command) == Some(label@),
            None => machine_label(*command) is None,
        },
{
    match command {
        Command::Heal { json: true, .. } => Some("heal"),
        Command::Conflicts { json: true, .. } => Some("conflicts"),
        Command::Resolve { json: true, .. } => Some("resolve"),
        Command::Abandon { json: true, .. } => Some("abandon"),
        Command::Tidy { json: true, .. } => Some("tidy"),
        Command::Remove { json: true, .. } => Some("remove"),
        Command::Merge { json: true, .. } => Some("merge"),
        Command::Init { json: true, .. } => Some("init"),
        Command::Lane(LaneCommand::Open { json: true, .. }) => Some("lane open"),
        Command::Lane(LaneCommand::Claim { json: true, .. }) => Some("lane claim"),
        Command::Lane(LaneCommand::Release { json: true, .. }) => Some("lane release"),
        Command::Lane(LaneCommand::Sync { json: true, .. }) => Some("lane sync"),
        Command::Lane(LaneCommand::Land { json: true, .. }) => Some("lane land"),
        Command::Lane(LaneCommand::Close { json: true, .. }) => Some("lane close"),
        Command::Lane(LaneCommand::Abandon { json: true, .. }) => Some("lane abandon"),
        Command::Lane(LaneCommand::Gc { json: true, .. }) => Some("lane gc"),
        _ => None,
    }
}

// ---------------------------------------------------------------------------
// Actions

/// The flag that makes a lane sparse wins over the one that makes it full;
/// without either the config decides.
pub open spec fn sparse_flag(sparse: bool, full: bool) -> Option<bool> {
    if sparse {
        Some(true)
    } else if full {
        Some(false)
    } else {
        None
    }
}

/// What a lane command asks for.
pub open spec fn lane_action(command: LaneCommand) -> std::result::Result<Action, error::ErrorView> {
    match command {
        LaneCommand::Open { name, paths, allow_overlap, sparse, full, revision, json } => Ok(
            Action::LaneOpen {
                name,
                paths,
                allow_overlap,
                sparse: sparse_flag(sparse, full),
                revision,
                json,
            },
        ),
        LaneCommand::Claim { name, paths, allow_overlap, json } => Ok(
            Action::LaneClaim { name, paths, allow_overlap, json },
        ),
        LaneCommand::Release { name, paths, json } => Ok(Action::LaneRelease { name, paths, json }),
        LaneCommand::List { json, compact, lifecycle, no_snapshot } => match commands::lifecycle_filter(
            text::opt_view(lifecycle),
        ) {
            Ok(filter) => Ok(Action::LaneList { json, compact, filter, snapshot: !no_snapshot }),
            Err(e) => Err(e),
        },
        LaneCommand::Sync { name, drop_unscoped, json } => Ok(
            Action::LaneSync { name, drop_unscoped, json },
        ),
        LaneCommand::Land { name, message, no_gate, gate, allow_unscoped, close, json } => Ok(
            Action::LaneLand {
                name,
                request: LaneLandRequest {
                    message,
                    no_gate,
                    gate_override: gate,
                    allow_unscoped,
                    close,
                },
                json,
            },
        ),
        LaneCommand::Close { name, json } => Ok(Action::LaneClose { name, json }),
        LaneCommand::Abandon { name, yes, json } => Ok(Action::LaneAbandon { name, yes, json }),
        LaneCommand::Gc { apply, prune, yes, json } => Ok(
            Action::LaneGc { apply, prune, yes, json },
        ),
    }
}

/// What a command asks for; an error where a flag is refused before anything
/// is opened.
pub open spec fn action_of(command: Command) -> std::result::Result<Action, error::ErrorView> {
    match command {
        Command::Switch { create, revision, workspace } => Ok(
            Action::Switch { create, revision, workspace },
        ),
        Command::List { json, compact, no_snapshot } => Ok(
            Action::List { json, compact, no_snapshot },
        ),
        Command::Doctor { json, compact, deep } => Ok(Action::Doctor { json, compact, deep }),
        Command::Heal { changes, mine, apply, limit, prefer_content, json } => if limit == 0 {
            Err(error::about(ErrorKind::Engine, "--limit must be at least 1"@))
        } else {
            Ok(
                Action::Heal(
                    HealOptions { changes, mine, apply, limit, prefer_content, json },
                ),
            )
        },
        Command::Conflicts { revset, json } => Ok(Action::Conflicts { revset, json }),
        Command::Resolve { union, apply, json } => match union {
            Some(file) => Ok(Action::ResolveUnion { file, apply, json }),
            None => Ok(Action::ResolvePolicies { apply, json }),
        },
        Command::Exec { workspace, arg_count } => if arg_count == 0 {
            Err(
                error::about(
                    ErrorKind::Engine,
                    "exec requires a command: navi exec -- <jj args...>"@,
                ),
            )
        } else {
            Ok(Action::Exec { workspace })
        },
        Command::Abandon { revset, apply, json } => Ok(Action::Abandon { revset, apply, json }),
        Command::Tidy { apply, yes, json } => Ok(Action::Tidy { apply, yes, json }),
        Command::Remove { yes, json, workspace } => Ok(Action::Remove { yes, json, workspace }),
        Command::Merge { from, into, revisions, json } => Ok(
            Action::Merge { from, into, revisions, json },
        ),
        Command::Skill => Ok(Action::Skill),
        Command::Init { target, json } => Ok(Action::Init { target, json }),
        Command::ConfigShow { json } => Ok(Action::ConfigShow { json }),
        Command::ShellInit { shell } => Ok(Action::ShellInit { shell }),
        Command::ShellInstall { shell } => Ok(Action::ShellInstall { shell }),
        Command::Lane(lane) => lane_action(lane),
    }
}

fn dispatch_lane(command: LaneCommand) -> (res: Result<Action>)
    ensures
        match lane_action(command) {
            Ok(action) => res == Ok::<Action, Error>(action),
            Err(view) => res matches Err(e) && e@ == view,
        },
{
    match command {
        LaneCommand::Open { name, paths, allow_overlap, sparse, full, revision, json } => {
            let sparse = if sparse {
                Some(true)
            } else if full {
                Some(false)
            } else {
                None
            };
            Ok(Action::LaneOpen { name, paths, allow_overlap, sparse, revision, json })
        },
        LaneCommand::Claim { name, paths, allow_overlap, json } => Ok(
            Action::LaneClaim { name, paths, allow_overlap, json },
        ),
        LaneCommand::Release { name, paths, json } => Ok(Action::LaneRelease { name, paths, json }),
        LaneCommand::List { json, compact, lifecycle, no_snapshot } => match parse_lifecycle_filter(
            &lifecycle,
        ) {
            Ok(filter) => Ok(Action::LaneList { json, compact, filter, snapshot: !no_snapshot }),
            Err(e) => Err(e),
        },
        LaneCommand::Sync { name, drop_unscoped, json } => Ok(
            Action::LaneSync { name, drop_unscoped, json },
        ),
        LaneCommand::Land { name, message, no_gate, gate, allow_unscoped, close, json } => Ok(
            Action::LaneLand {
                name,
                request: LaneLandRequest {
                    message,
                    no_gate,
                    gate_override: gate,
                    allow_unscoped,
                    close,
                },
                json,
            },
        ),
        LaneCommand::Close { name, json } => Ok(Action::LaneClose { name, json }),
        LaneCommand::Abandon { name, yes, json } => Ok(Action::LaneAbandon { name, yes, json }),
        LaneCommand::Gc { apply, prune, yes, json } => Ok(
            Action::LaneGc { apply, prune, yes, json },
        ),
    }
}

/// Turn a command into the action that it asks for. Flags that need no repo
/// are checked here, before one is opened.
pub fn dispatch(command: Command) -> (res: Result<Action>)
    ensures
        match action_of(command) {
            Ok(action) => res == Ok::<Action, Error>(action),
            Err(view) => res matches Err(e) && e@ == view,
        },
{
    match command {
        Command::Switch { create, revision, workspace } => Ok(
            Action::Switch { create, revision, workspace },
        ),
        Command::List { json, compact, no_snapshot } => Ok(
            Action::List { json, compact, no_snapshot },
        ),
        Command::Doctor { json, compact, deep } => Ok(Action::Doctor { json, compact, deep }),
        Command::Heal { changes, mine, apply, limit, prefer_content, json } => match validated_limit(
            limit,
        ) {
            Ok(limit) => Ok(
                Action::Heal(
                    HealOptions { changes, mine, apply, limit, prefer_content, json },
                ),
            ),
            Err(e) => Err(e),
        },
        Command::Conflicts { revset, json } => Ok(Action::Conflicts { revset, json }),
        Command::Resolve { union, apply, json } => match union {
            Some(file) => Ok(Action::ResolveUnion { file, apply, json }),
            None => Ok(Action::ResolvePolicies { apply, json }),
        },
        Command::Exec { workspace, arg_count } => {
            if arg_count == 0 {
                Err(
                    Error::Engine {
                        message: copy("exec requires a command: navi exec -- <jj args...>"),
                    },
                )
            } else {
                Ok(Action::Exec { workspace })
            }
        },
        Command::Abandon { revset, apply, json } => Ok(Action::Abandon { revset, apply, json }),
        Command::Tidy { apply, yes, json } => Ok(Action::Tidy { apply, yes, json }),
        Command::Remove { yes, json, workspace } => Ok(Action::Remove { yes, json, workspace }),
        Command::Merge { from, into, revisions, json } => Ok(
            Action::Merge { from, into, revisions, json },
        ),
        Command::Skill => Ok(Action::Skill),
        Command::Init { target, json } => Ok(Action::Init { target, json }),
        Command::ConfigShow { json } => Ok(Action::ConfigShow { json }),
        Command::ShellInit { shell } => Ok(Action::ShellInit { shell }),
        Command::ShellInstall { shell } => Ok(Action::ShellInstall { shell }),
        Command::Lane(lane) => dispatch_lane(lane),
    }
}

// ---------------------------------------------------------------------------
// Laws

/// What only plans or reads never takes the lock, and what is told to apply
/// takes it: the lock is not held exactly for the reading commands and for those
/// that were not told to apply.
pub proof fn law_plans_take_no_lock(action: Action)
    ensures
        scope_of(action) == LockScope::Never <==> match action {
            Action::Heal(options) => !options.apply,
            Action::ResolveUnion { apply, .. } => !apply,
            Action::ResolvePolicies { apply, .. } => !apply,
            Action::Abandon { apply, .. } => !apply,
            Action::Tidy { apply, .. } => !apply,
            Action::LaneGc { apply, .. } => !apply,
            _ => action is Switch || action is List || action is Doctor || action is Conflicts
                || action is Skill || action is Init || action is ConfigShow || action is ShellInit
                || action is ShellInstall || action is LaneList,
        },
        scope_of(action) == LockScope::Whole <==> action is LaneOpen || action is LaneClaim
            || action is LaneRelease || action is LaneSync || action is LaneClose || action is Exec
            || action is Merge,
{
}

/// An action does what its command says: its flags are those of the command.
pub proof fn law_flags_reach_the_action(command: Command, action: Action)
    requires
        action_of(command) == Ok::<Action, error::ErrorView>(action),
    ensures
        action matches Action::Switch { create, revision, workspace } ==> command == (
        Command::Switch { create, revision, workspace }),
        action matches Action::List { json, compact, no_snapshot } ==> command == (Command::List {
            json,
            compact,
            no_snapshot,
        }),
        action matches Action::Doctor { json, compact, deep } ==> command == (Command::Doctor {
            json,
            compact,
            deep,
        }),
        action matches Action::Heal(o) ==> o.limit > 0 && command == (Command::Heal {
            changes: o.changes,
            mine: o.mine,
            apply: o.apply,
            limit: o.limit,
            prefer_content: o.prefer_content,
            json: o.json,
        }),
        action matches Action::Conflicts { revset, json } ==> command == (Command::Conflicts {
            revset,
            json,
        }),
        action matches Action::ResolveUnion { file, apply, json } ==> command == (
        Command::Resolve { union: Some(file), apply, json }),
        action matches Action::ResolvePolicies { apply, json } ==> command == (Command::Resolve {
            union: None,
            apply,
            json,
        }),
        action matches Action::Exec { workspace } ==> command matches Command::Exec {
            workspace: asked,
            arg_count,
        } && asked == workspace && arg_count > 0,
        action matches Action::Abandon { revset, apply, json } ==> command == (Command::Abandon {
            revset,
            apply,
            json,
        }),
        action matches Action::Tidy { apply, yes, json } ==> command == (Command::Tidy {
            apply,
            yes,
            json,
        }),
        action matches Action::Remove { yes, json, workspace } ==> command == (Command::Remove {
            yes,
            json,
            workspace,
        }),
        action matches Action::Merge { from, into, revisions, json } ==> command == (
        Command::Merge { from, into, revisions, json }),
        action matches Action::Init { target, json } ==> command == (Command::Init { target, json }),
        action matches Action::ConfigShow { json } ==> command == (Command::ConfigShow { json }),
        action matches Action::ShellInit { shell } ==> command == (Command::ShellInit { shell }),
        action matches Action::ShellInstall { shell } ==> command == (Command::ShellInstall {
            shell,
        }),
{
}

/// A lane action does what its command says: its flags are those of the command.
pub proof fn law_lane_flags_reach_the_action(command: LaneCommand, action: Action)
    requires
        lane_action(command) == Ok::<Action, error::ErrorView>(action),
    ensures
        action matches Action::LaneOpen { name, paths, allow_overlap, sparse, revision, json }
            ==> command matches LaneCommand::Open {
            name: n,
            paths: p,
            allow_overlap: o,
            sparse: s,
            full: f,
            revision: r,
            json: j,
        } && n == name && p == paths && o == allow_overlap && r == revision && j == json && (sparse
            == Some(true) <==> s) && (sparse == Some(false) <==> f && !s) && (sparse is None
            <==> !s && !f),
        action matches Action::LaneClaim { name, paths, allow_overlap, json } ==> command == (
        LaneCommand::Claim { name, paths, allow_overlap, json }),
        action matches Action::LaneRelease { name, paths, json } ==> command == (
        LaneCommand::Release { name, paths, json }),
        action matches Action::LaneList { json, compact, filter, snapshot } ==> command matches
            LaneCommand::List { json: j, compact: c, lifecycle, no_snapshot } && j == json && c
            == compact && no_snapshot == !snapshot && commands::lifecycle_filter(
            text::opt_view(lifecycle),
        ) == Ok::<Option<LaneLifecycle>, error::ErrorView>(filter),
        action matches Action::LaneSync { name, drop_unscoped, json } ==> command == (
        LaneCommand::Sync { name, drop_unscoped, json }),
        action matches Action::LaneLand { name, request, json } ==> command == (
        LaneCommand::Land {
            name,
            message: request.message,
            no_gate: request.no_gate,
            gate: request.gate_override,
            allow_unscoped: request.allow_unscoped,
            close: request.close,
            json,
        }),
        action matches Action::LaneClose { name, json } ==> command == (LaneCommand::Close {
            name,
            json,
        }),
        action matches Action::LaneAbandon { name, yes, json } ==> command == (
        LaneCommand::Abandon { name, yes, json }),
        action matches Action::LaneGc { apply, prune, yes, json } ==> command == (
        LaneCommand::Gc { apply, prune, yes, json }),
        action is LaneOpen || action is LaneClaim || action is LaneRelease || action is LaneList
            || action is LaneSync || action is LaneLand || action is LaneClose || action
            is LaneAbandon || action is LaneGc,
{
}

/// A command is refused before anything is opened exactly where it would heal
/// nothing, has nothing to run, or asks for lanes of a lifecycle that there is
/// none of.
pub proof fn law_refused_commands(command: Command)
    ensures
        action_of(command) is Err <==> match command {
            Command::Heal { limit, .. } => limit == 0,
            Command::Exec { arg_count, .. } => arg_count == 0,
            Command::Lane(LaneCommand::List { lifecycle: Some(word), .. }) => word@ != "all"@
                && word@ != "open"@ && word@ != "closed"@ && word@ != "abandoned"@,
            _ => false,
        },
{
    if let Command::Lane(LaneCommand::List { lifecycle: Some(word), .. }) = command {
        commands::law_lifecycle_words(word@);
    }
}

/// Whether a command was asked for machine output.
pub open spec fn asks_for_json(command: Command) -> bool {
    match command {
        Command::Heal { json, .. } => json,
        Command::Conflicts { json, .. } => json,
        Command::Resolve { json, .. } => json,
        Command::Abandon { json, .. } => json,
        Command::Tidy { json, .. } => json,
        Command::Remove { json, .. } => json,
        Command::Merge { json, .. } => json,
        Command::Init { json, .. } => json,
        Command::Lane(lane) => match lane {
            LaneCommand::Open { json, .. } => json,
            LaneCommand::Claim { json, .. } => json,
            LaneCommand::Release { json, .. } => json,
            LaneCommand::Sync { json, .. } => json,
            LaneCommand::Land { json, .. } => json,
            LaneCommand::Close { json, .. } => json,
            LaneCommand::Abandon { json, .. } => json,
            LaneCommand::Gc { json, .. } => json,
            LaneCommand::List { .. } => false,
        },
        _ => false,
    }
}

/// Errors go to the machine interface exactly where machine output was asked
/// for, under the words that the command was called by.
pub proof fn law_machine_errors_are_asked_for(command: Command)
    ensures
        machine_label(command) is Some <==> asks_for_json(command),
        machine_label(command) matches Some(label) ==> match command {
            Command::Heal { .. } => label == "heal"@,
            Command::Conflicts { .. } => label == "conflicts"@,
            Command::Resolve { .. } => label == "resolve"@,
            Command::Abandon { .. } => label == "abandon"@,
            Command::Tidy { .. } => label == "tidy"@,
            Command::Remove { .. } => label == "remove"@,
            Command::Merge { .. } => label == "merge"@,
            Command::Init { .. } => label == "init"@,
            Command::Lane(lane) => label == "lane "@ + (match lane {
                LaneCommand::Open { .. } => "open"@,
                LaneCommand::Claim { .. } => "claim"@,
                LaneCommand::Release { .. } => "release"@,
                LaneCommand::Sync { .. } => "sync"@,
                LaneCommand::Land { .. } => "land"@,
                LaneCommand::Close { .. } => "close"@,
                LaneCommand::Abandon { .. } => "abandon"@,
                _ => "gc"@,
            }),
            _ => false,
        },
{
    reveal_strlit("lane ");
    reveal_strlit("open");
    reveal_strlit("claim");
    reveal_strlit("release");
    reveal_strlit("sync");
    reveal_strlit("land");
    reveal_strlit("close");
    reveal_strlit("abandon");
    reveal_strlit("gc");
    reveal_strlit("lane open");
    reveal_strlit("lane claim");
    reveal_strlit("lane release");
    reveal_strlit("lane sync");
    reveal_strlit("lane land");
    reveal_strlit("lane close");
    reveal_strlit("lane abandon");
    reveal_strlit("lane gc");
    assert("lane open"@ =~= "lane "@ + "open"@);
    assert("lane claim"@ =~= "lane "@ + "claim"@);
    assert("lane release"@ =~= "lane "@ + "release"@);
    assert("lane sync"@ =~= "lane "@ + "sync"@);
    assert("lane land"@ =~= "lane "@ + "land"@);
    assert("lane close"@ =~= "lane "@ + "close"@);
    assert("lane abandon"@ =~= "lane "@ + "abandon"@);
    assert("lane gc"@ =~= "lane "@ + "gc"@);
}

} // verus!
