//! Repo-scoped configuration: where it lives, how it is validated, and the
//! commented file that documents it.

use vstd::prelude::*;

use crate::error::{self, Error, ErrorKind, Result};
use crate::order::{self, text_less};
use crate::text::{self, cat2, cat3, copy, has_suffix, trimmed};
use crate::types::{
    self, parse_lane_paths, LaneConfig, RepoConfig, ResolvePolicy, ResolveStrategy, WorkspaceName,
    WorkspaceTemplate,
};

verus! {

// ---------------------------------------------------------------------------
// Paths

/// A relative path below a directory.
pub open spec fn joined_path(dir: Seq<char>, name: Seq<char>) -> Seq<char> {
    if dir.len() == 0 || text::ends_with(dir, "/"@) {
        dir + name
    } else {
        dir + "/"@ + name
    }
}

/// Append a relative path to a directory.
pub fn path_join(dir: &str, name: &str) -> (res: String)
    ensures
        res@ == joined_path(dir@, name@),
{
    if text::char_count(dir) == 0 || has_suffix(dir, "/") {
        cat2(dir, name)
    } else {
        cat3(dir, "/", name)
    }
}

/// The directory of navi's files in the shared repo storage.
pub open spec fn navi_dir(storage: Seq<char>) -> Seq<char> {
    joined_path(storage, "navi"@)
}

/// A file in navi's directory.
pub open spec fn navi_file(storage: Seq<char>, name: Seq<char>) -> Seq<char> {
    joined_path(navi_dir(storage), name)
}

/// The directory of navi's files.
pub fn navi_dir_path(repo_storage_path: &str) -> (res: String)
    ensures
        res@ == navi_dir(repo_storage_path@),
{
    path_join(repo_storage_path, "navi")
}

/// The config file.
pub fn repo_config_path(repo_storage_path: &str) -> (res: String)
    ensures
        res@ == navi_file(repo_storage_path@, "config.toml"@),
{
    path_join(navi_dir_path(repo_storage_path).as_str(), "config.toml")
}

/// The state file.
pub fn repo_state_path(repo_storage_path: &str) -> (res: String)
    ensures
        res@ == navi_file(repo_storage_path@, "state.toml"@),
{
    path_join(navi_dir_path(repo_storage_path).as_str(), "state.toml")
}

/// The lane registry file.
pub fn lane_store_path(repo_storage_path: &str) -> (res: String)
    ensures
        res@ == navi_file(repo_storage_path@, "lanes.toml"@),
{
    path_join(navi_dir_path(repo_storage_path).as_str(), "lanes.toml")
}

/// The lock file.
pub fn lock_path(repo_storage_path: &str) -> (res: String)
    ensures
        res@ == navi_file(repo_storage_path@, "mutation.lock"@),
{
    path_join(navi_dir_path(repo_storage_path).as_str(), "mutation.lock")
}

/// The directory of archived diffs.
pub fn archive_dir_path(repo_storage_path: &str) -> (res: String)
    ensures
        res@ == navi_file(repo_storage_path@, "archive"@),
{
    path_join(navi_dir_path(repo_storage_path).as_str(), "archive")
}

// ---------------------------------------------------------------------------
// The config file

/// The lane table of the config file.
#[derive(Debug, PartialEq, Eq)]
pub struct LaneConfigFile {
    pub trunk: Option<String>,
    pub target: Option<String>,
    pub integration_workspace: Option<String>,
    pub gate: Option<String>,
    pub sparse: Option<bool>,
    pub auto_resolve: Option<bool>,
    pub context_paths: Vec<String>,
}

/// The config file.
#[derive(Debug, PartialEq, Eq)]
pub struct RepoConfigFile {
    pub workspace_template: String,
    pub lane: Option<LaneConfigFile>,
    pub resolve: ResolveTable,
}

/// The resolve table of the config file: the name of a strategy for each file
/// path. No path occurs twice, and the paths stand in order.
#[derive(Debug, PartialEq, Eq)]
pub struct ResolveTable {
    entries: Vec<(String, String)>,
}

impl View for ResolveTable {
    type V = Seq<(Seq<char>, Seq<char>)>;

    closed spec fn view(&self) -> Seq<(Seq<char>, Seq<char>)> {
        self.entries@.map_values(|e: (String, String)| (e.0@, e.1@))
    }
}

/// The paths of a resolve table.
pub open spec fn table_paths(table: Seq<(Seq<char>, Seq<char>)>) -> Seq<Seq<char>> {
    table.map_values(|e: (Seq<char>, Seq<char>)| e.0)
}

/// The paths of some policies.
pub open spec fn policy_paths(policies: Seq<ResolvePolicy>) -> Seq<Seq<char>> {
    policies.map_values(|p: ResolvePolicy| p.path@)
}

impl ResolveTable {
    #[verifier::type_invariant]
    spec fn is_ordered(self) -> bool {
        order::increasing(table_paths(self@))
    }

    /// A table without policies.
    pub fn new() -> (res: ResolveTable)
        ensures
            res@.len() == 0,
    {
        ResolveTable { entries: Vec::new() }
    }

    /// The table with a policy for a path, in place of the one that the path
    /// may have had.
    pub fn with(self, path: String, strategy: String) -> (res: ResolveTable)
        ensures
            order::increasing(table_paths(res@)),
            forall|e: (Seq<char>, Seq<char>)| #[trigger]
                res@.contains(e) <==> e == (path@, strategy@) || (self@.contains(e) && e.0 != path@),
    {
        proof {
            use_type_invariant(&self);
        }
        let ghost before = self@;
        let ghost keys = table_paths(before);
        let ghost entry = (path@, strategy@);
        let mut entries = self.entries;
        assert(forall|i: int| 0 <= i < keys.len() ==> keys[i] == before[i].0);
        let mut p: usize = 0;
        while p < entries.len() && text_less(entries[p].0.as_str(), path.as_str())
            invariant
                p <= entries@.len(),
                entries@.len() == keys.len(),
                forall|i: int| 0 <= i < entries@.len() ==> (#[trigger] entries@[i]).0@ == keys[i],
                forall|i: int| 0 <= i < p ==> order::text_lt(#[trigger] keys[i], path@),
            decreases entries@.len() - p,
        {
            p = p + 1;
        }
        proof {
            if p < keys.len() {
                order::lemma_lt_total(keys[p as int], path@);
            }
        }
        let present: bool = p < entries.len() && !text_less(path.as_str(), entries[p].0.as_str());
        if present {
            entries.remove(p);
        }
        let ghost rest = entries@.map_values(|e: (String, String)| (e.0@, e.1@));
        proof {
            if present {
                assert(rest =~= before.remove(p as int));
            } else {
                assert(rest =~= before);
            }
            assert forall|i: int, j: int| 0 <= i < j < rest.len() implies order::text_lt(
                #[trigger] rest[i].0,
                #[trigger] rest[j].0,
            ) by {
                let a = if present && i >= p { i + 1 } else { i };
                let b = if present && j >= p { j + 1 } else { j };
                assert(order::text_lt(keys[a], keys[b]));
            }
            assert forall|i: int| p <= i < rest.len() implies order::text_lt(
                path@,
                #[trigger] rest[i].0,
            ) by {
                let a = if present { i + 1 } else { i };
                if a > p {
                    assert(order::text_lt(keys[p as int], keys[a]));
                    if keys[p as int] != path@ {
                        order::lemma_lt_transitive(path@, keys[p as int], keys[a]);
                    }
                }
            }
            assert forall|i: int| 0 <= i < p implies order::text_lt(#[trigger] rest[i].0, path@) by {
                assert(order::text_lt(keys[i], path@));
            }
        }
        entries.insert(p, (path, strategy));
        let ghost after = entries@.map_values(|e: (String, String)| (e.0@, e.1@));
        proof {
            assert(after =~= rest.insert(p as int, entry));
            let paths = table_paths(after);
            assert forall|i: int, j: int| 0 <= i < j < paths.len() implies #[trigger] order::text_lt(
                paths[i],
                paths[j],
            ) by {
                if i < p && j > p {
                    assert(order::text_lt(rest[i].0, rest[j - 1].0));
                } else if i < p && j < p {
                    assert(order::text_lt(rest[i].0, rest[j].0));
                } else if i > p {
                    assert(order::text_lt(rest[i - 1].0, rest[j - 1].0));
                } else if i == p {
                    assert(order::text_lt(path@, rest[j - 1].0));
                } else {
                    assert(order::text_lt(rest[i].0, path@));
                }
            }
            assert forall|e: (Seq<char>, Seq<char>)| #[trigger] after.contains(e) <==> e == entry || (
            before.contains(e) && e.0 != path@) by {
                if after.contains(e) {
                    let i = choose|i: int| 0 <= i < after.len() && after[i] == e;
                    if i != p {
                        let k = if i < p { i } else { i - 1 };
                        assert(rest[k] == e);
                        let m = if present && k >= p { k + 1 } else { k };
                        assert(before[m] == e);
                        if k < p {
                            assert(order::text_lt(rest[k].0, path@));
                        } else {
                            assert(order::text_lt(path@, rest[k].0));
                        }
                        order::lemma_lt_irreflexive(path@);
                    }
                }
                if e == entry {
                    assert(after[p as int] == e);
                }
                if before.contains(e) && e.0 != path@ {
                    let m = choose|m: int| 0 <= m < before.len() && before[m] == e;
                    assert(keys[m] == e.0);
                    let k = if present && m > p { m - 1 } else { m };
                    assert(rest[k] == e);
                    let i = if k < p { k } else { k + 1 };
                    assert(after[i] == e);
                }
            }
        }
        ResolveTable { entries }
    }
}

/// A value that is given and not blank.
pub open spec fn filled(value: Option<Seq<char>>) -> Option<Seq<char>> {
    match value {
        Some(s) => if text::trim(s).len() == 0 {
            None
        } else {
            Some(s)
        },
        None => None,
    }
}

/// The configured name, or the default one.
pub open spec fn name_or(value: Option<Seq<char>>, default: Seq<char>) -> Seq<char> {
    match value {
        Some(s) => s,
        None => default,
    }
}

/// A configured name that is none.
pub open spec fn bad_name(value: Option<Seq<char>>) -> bool {
    value matches Some(s) && !types::valid_name(s)
}

/// The first policy, from position `i` on, whose strategy is unknown.
pub open spec fn bad_policy(policies: Seq<(Seq<char>, Seq<char>)>, i: int) -> Option<int>
    decreases policies.len() - i,
{
    if i < 0 || i >= policies.len() {
        None
    } else if ResolveStrategy::parsed(policies[i].1) is None {
        Some(i)
    } else {
        bad_policy(policies, i + 1)
    }
}

/// The lane table in effect.
pub open spec fn lane_file(file: RepoConfigFile) -> LaneFileView {
    match file.lane {
        None => LaneFileView {
            trunk: None,
            target: None,
            integration_workspace: None,
            gate: None,
            sparse: None,
            auto_resolve: None,
            context_paths: Seq::empty(),
        },
        Some(lane) => LaneFileView {
            trunk: text::opt_view(lane.trunk),
            target: text::opt_view(lane.target),
            integration_workspace: text::opt_view(lane.integration_workspace),
            gate: text::opt_view(lane.gate),
            sparse: lane.sparse,
            auto_resolve: lane.auto_resolve,
            context_paths: text::views(lane.context_paths@),
        },
    }
}

/// The texts of the lane table.
pub struct LaneFileView {
    pub trunk: Option<Seq<char>>,
    pub target: Option<Seq<char>>,
    pub integration_workspace: Option<Seq<char>>,
    pub gate: Option<Seq<char>>,
    pub sparse: Option<bool>,
    pub auto_resolve: Option<bool>,
    pub context_paths: Seq<Seq<char>>,
}

/// The first thing that is wrong with a config file.
pub open spec fn config_problem(file: RepoConfigFile) -> Option<Seq<char>> {
    let lane = lane_file(file);
    if !types::valid_template(file.workspace_template@) {
        Some(
            error::about(
                ErrorKind::InvalidWorkspaceTemplate,
                file.workspace_template@,
            ).message(),
        )
    } else if bad_name(lane.trunk) {
        Some(error::about(ErrorKind::InvalidWorkspaceName, lane.trunk->0).message())
    } else if bad_name(lane.integration_workspace) {
        Some(
            error::about(
                ErrorKind::InvalidWorkspaceName,
                lane.integration_workspace->0,
            ).message(),
        )
    } else if types::bad_path(lane.context_paths) is Some {
        Some(
            error::about(
                ErrorKind::InvalidLanePath,
                types::bad_path(lane.context_paths)->0,
            ).message(),
        )
    } else {
        match bad_policy(file.resolve@, 0) {
            Some(i) => Some(
                "unknown resolve strategy '"@ + file.resolve@[i].1 + "' for '"@
                    + file.resolve@[i].0 + "' (supported: union)"@,
            ),
            None => None,
        }
    }
}

/// A configuration says what a config file says.
pub open spec fn config_matches(config: RepoConfig, file: RepoConfigFile) -> bool {
    let lane = lane_file(file);
    &&& config.workspace_template@ == file.workspace_template@
    &&& config.lane.trunk@ == name_or(lane.trunk, "default"@)
    &&& text::opt_view(config.lane.target) == filled(lane.target)
    &&& config.lane.integration_workspace@ == name_or(
        lane.integration_workspace,
        "navi-integration"@,
    )
    &&& text::opt_view(config.lane.gate) == filled(lane.gate)
    &&& config.lane.sparse == (lane.sparse == Some(true))
    &&& config.lane.auto_resolve == (lane.auto_resolve != Some(false))
    &&& types::path_views(config.lane.context_paths@) == types::normal_paths(lane.context_paths)
    &&& config.resolve@.len() == file.resolve@.len()
    &&& forall|i: int|
        0 <= i < config.resolve@.len() ==> (#[trigger] config.resolve@[i]).path@
            == file.resolve@[i].0 && Some(config.resolve@[i].strategy) == ResolveStrategy::parsed(
            file.resolve@[i].1,
        )
    &&& order::increasing(policy_paths(config.resolve@))
}

fn filled_value(value: &Option<String>) -> (res: Option<String>)
    ensures
        text::opt_view(res) == filled(text::opt_view(*value)),
{
    match value {
        Some(s) => {
            let inner = trimmed(s.as_str());
            if text::char_count(inner.as_str()) == 0 {
                None
            } else {
                Some(copy(s.as_str()))
            }
        },
        None => None,
    }
}

fn configured_name(value: &Option<String>, default: WorkspaceName) -> (res: Result<WorkspaceName>)
    ensures
        match res {
            Ok(name) => !bad_name(text::opt_view(*value)) && name@ == name_or(
                text::opt_view(*value),
                default@,
            ),
            Err(e) => bad_name(text::opt_view(*value)) && e@ == error::about(
                ErrorKind::InvalidWorkspaceName,
                text::opt_view(*value)->0,
            ),
        },
{
    match value {
        Some(s) => WorkspaceName::new(copy(s.as_str())),
        None => Ok(default),
    }
}

fn config_error(path: &str, message: String) -> (res: Error)
    ensures
        res@ == error::about2(ErrorKind::InvalidRepoConfig, path@, message@),
{
    Error::InvalidRepoConfig { path: copy(path), message }
}

fn no_lane_table() -> (res: LaneConfigFile)
    ensures
        res.trunk is None,
        res.target is None,
        res.integration_workspace is None,
        res.gate is None,
        res.sparse is None,
        res.auto_resolve is None,
        res.context_paths@.len() == 0,
{
    LaneConfigFile {
        trunk: None,
        target: None,
        integration_workspace: None,
        gate: None,
        sparse: None,
        auto_resolve: None,
        context_paths: Vec::new(),
    }
}

/// Validate a config file. Missing keys have their defaults, blank targets and
/// gates do not count.
pub fn load_repo_config(path: &str, file: &RepoConfigFile) -> (res: Result<RepoConfig>)
    ensures
        match res {
            Ok(config) => config_problem(*file) is None && config_matches(config, *file),
            Err(e) => config_problem(*file) matches Some(message) && e@ == error::about2(
                ErrorKind::InvalidRepoConfig,
                path@,
                message,
            ),
        },
{
    let workspace_template = match WorkspaceTemplate::new(
        copy(file.workspace_template.as_str()),
    ) {
        Ok(template) => template,
        Err(e) => {
            return Err(config_error(path, e.message()));
        },
    };
    let none = no_lane_table();
    proof {
        text::lemma_views_empty(none.context_paths@);
    }
    let table = match &file.lane {
        Some(lane) => lane,
        None => &none,
    };
    let defaults = LaneConfig::default();
    let trunk = match configured_name(&table.trunk, defaults.trunk) {
        Ok(name) => name,
        Err(e) => {
            return Err(config_error(path, e.message()));
        },
    };
    let integration_workspace = match configured_name(
        &table.integration_workspace,
        defaults.integration_workspace,
    ) {
        Ok(name) => name,
        Err(e) => {
            return Err(config_error(path, e.message()));
        },
    };
    let context_paths = match parse_lane_paths(&table.context_paths) {
        Ok(paths) => paths,
        Err(e) => {
            return Err(config_error(path, e.message()));
        },
    };
    let lane = LaneConfig {
        trunk,
        target: filled_value(&table.target),
        integration_workspace,
        gate: filled_value(&table.gate),
        sparse: match table.sparse {
            Some(sparse) => sparse,
            None => false,
        },
        auto_resolve: match table.auto_resolve {
            Some(auto_resolve) => auto_resolve,
            None => true,
        },
        context_paths,
    };
    let resolve = &file.resolve.entries;
    let ghost table = file.resolve@;
    proof {
        use_type_invariant(&file.resolve);
    }
    let mut policies: Vec<ResolvePolicy> = Vec::new();
    let mut i: usize = 0;
    while i < resolve.len()
        invariant
            i <= resolve@.len(),
            policies@.len() == i,
            table.len() == resolve@.len(),
            forall|k: int|
                0 <= k < table.len() ==> #[trigger] table[k] == (resolve@[k].0@, resolve@[k].1@),
            bad_policy(table, 0) == bad_policy(table, i as int),
            config_problem(*file) == (match bad_policy(table, 0) {
                Some(k) => Some(
                    "unknown resolve strategy '"@ + table[k].1 + "' for '"@ + table[k].0
                        + "' (supported: union)"@,
                ),
                None => None,
            }),
            forall|k: int|
                0 <= k < i ==> (#[trigger] policies@[k]).path@ == table[k].0 && Some(
                    policies@[k].strategy,
                ) == ResolveStrategy::parsed(table[k].1),
        decreases resolve@.len() - i,
    {
        let entry = &resolve[i];
        assert(table[i as int] == (entry.0@, entry.1@));
        match ResolveStrategy::parse(entry.1.as_str()) {
            Some(strategy) => {
                policies.push(ResolvePolicy { path: copy(entry.0.as_str()), strategy });
            },
            None => {
                let mut message = cat3("unknown resolve strategy '", entry.1.as_str(), "' for '");
                message.append(entry.0.as_str());
                message.append("' (supported: union)");
                return Err(config_error(path, message));
            },
        }
        i = i + 1;
    }
    assert(policy_paths(policies@) =~= table_paths(table));
    Ok(RepoConfig { workspace_template, lane, resolve: policies })
}

// ---------------------------------------------------------------------------
// The scaffold

/// The text that `{:?}` makes of a string: in double quotes, with escapes.
pub uninterp spec fn debug_text(s: Seq<char>) -> Seq<char>;

/// The `Debug` rendering of a string. The result is a function of the text.
#[verifier::external_body]
pub(crate) fn debug_string(s: &str) -> (res: String)
    ensures
        res@ == debug_text(s@),
{
    format!("{:?}", s)
}

/// What stands before the template in a new config file.
pub const SCAFFOLD_HEAD: &'static str = "# jj-navi repo configuration. Uncomment and edit to change behavior.\n\
    \n\
    # Template for planning new workspace directories.\n\
    workspace_template = ";

/// The commented settings in a new config file.
pub const SCAFFOLD_TAIL: &'static str = "\n\
    \n\
    # [lane]\n\
    # # Workspace whose working-copy parent is the trunk head that lanes\n\
    # # sync onto and land into (legacy mode; ignored when target is set).\n\
    # trunk = \"default\"\n\
    # # Bookmark lanes land into. When set, landings advance this bookmark\n\
    # # via the integration workspace and no live working copy is ever\n\
    # # fast-forwarded. The bookmark must exist (jj bookmark create).\n\
    # target = \"main\"\n\
    # # Sparse-empty workspace the bookmark advance runs in (auto-created).\n\
    # integration_workspace = \"navi-integration\"\n\
    # # Gate command run (via sh -c, in the lane workspace) before every\n\
    # # landing; landing aborts if it fails.\n\
    # gate = \"cargo test\"\n\
    # # Create lane workspaces sparse by default (write-set + context\n\
    # # paths only). Override per lane with --sparse/--full.\n\
    # sparse = false\n\
    # # Extra read-only paths materialized into sparse lane workspaces.\n\
    # context_paths = []\n\
    \n\
    # [resolve]\n\
    # # Automatic conflict-resolution policies: navi resolve --apply (no\n\
    # # arguments) sweeps every entry. 'union' keeps every side of each\n\
    # # conflicted hunk -- right for append-only files like changelogs.\n\
    # \"CHANGELOG.md\" = \"union\"\n";

/// A new config file around an already quoted template.
pub fn scaffold_with(quoted_template: &str) -> (res: String)
    ensures
        res@ == SCAFFOLD_HEAD@ + quoted_template@ + SCAFFOLD_TAIL@,
{
    cat3(SCAFFOLD_HEAD, quoted_template, SCAFFOLD_TAIL)
}

/// A new config file: the template in effect, and a commented map of every
/// setting, so that the file documents itself.
pub fn render_config_scaffold(config: &RepoConfig) -> (res: String)
    ensures
        res@ == SCAFFOLD_HEAD@ + debug_text(config.workspace_template@) + SCAFFOLD_TAIL@,
{
    scaffold_with(debug_string(config.workspace_template.as_str()).as_str())
}

// ---------------------------------------------------------------------------
// Laws

/// A file in navi's directory stands below `navi/` in the storage.
pub proof fn law_navi_files_stand_in_navis_directory(storage: Seq<char>, name: Seq<char>)
    requires
        storage.len() > 0,
    ensures
        storage.last() != '/' ==> navi_file(storage, name) == storage + "/navi/"@ + name,
        storage.last() == '/' ==> navi_file(storage, name) == storage + "navi/"@ + name,
{
    reveal_strlit("/");
    reveal_strlit("navi");
    reveal_strlit("navi/");
    reveal_strlit("/navi/");
    assert("/"@ =~= seq!['/']);
    assert("navi"@.last() == 'i');
    let dir = navi_dir(storage);
    if storage.last() != '/' {
        if text::ends_with(storage, "/"@) {
            assert(storage.skip(storage.len() - 1)[0] == storage.last());
        }
        assert(dir == storage + "/"@ + "navi"@);
    } else {
        assert(storage.skip(storage.len() - 1) =~= "/"@);
        assert(dir == storage + "navi"@);
    }
    assert(dir.last() == 'i');
    if text::ends_with(dir, "/"@) {
        assert(dir.skip(dir.len() - 1)[0] == dir.last());
    }
    assert(navi_file(storage, name) == dir + "/"@ + name);
    assert("/"@ + "navi"@ + "/"@ =~= "/navi/"@);
    assert("navi"@ + "/"@ =~= "navi/"@);
    if storage.last() != '/' {
        assert(dir + "/"@ + name =~= storage + "/navi/"@ + name);
    } else {
        assert(dir + "/"@ + name =~= storage + "navi/"@ + name);
    }
}

/// The policy that a config file is refused for is the first whose strategy is
/// unknown, and there is one exactly where some strategy is.
pub proof fn law_bad_policy_is_the_first(policies: Seq<(Seq<char>, Seq<char>)>, from: int)
    requires
        0 <= from,
    ensures
        match bad_policy(policies, from) {
            Some(i) => from <= i < policies.len() && policies[i].1 != "union"@ && forall|j: int|
                from <= j < i ==> (#[trigger] policies[j]).1 == "union"@,
            None => forall|j: int|
                from <= j < policies.len() ==> (#[trigger] policies[j]).1 == "union"@,
        },
    decreases policies.len() - from,
{
    if from < policies.len() {
        law_bad_policy_is_the_first(policies, from + 1);
    }
}

/// A config file is accepted exactly where its template, the names in it, its
/// context paths and its strategies all are what they should be.
pub proof fn law_config_is_accepted_exactly(file: RepoConfigFile)
    ensures
        config_problem(file) is None <==> {
            &&& types::valid_template(file.workspace_template@)
            &&& forall|k: int| 0 <= k < file.resolve@.len() ==> (#[trigger] file.resolve@[k]).1
                == "union"@
            &&& file.lane matches Some(lane) ==> {
                &&& lane.trunk matches Some(name) ==> types::valid_name(name@)
                &&& lane.integration_workspace matches Some(name) ==> types::valid_name(name@)
                &&& types::bad_path(text::views(lane.context_paths@)) is None
            }
        },
{
    law_bad_policy_is_the_first(file.resolve@, 0);
}

/// What a config file does not set has its default: lanes are worked on in
/// `default`, integrated in `navi-integration`, shown in full, without a target
/// or a gate; conflicts are resolved unless that is switched off.
pub proof fn law_config_defaults(config: RepoConfig, file: RepoConfigFile)
    requires
        config_matches(config, file),
    ensures
        (file.lane matches Some(lane) ==> lane.trunk is None) ==> config.lane.trunk@ == "default"@,
        (file.lane matches Some(lane) ==> lane.integration_workspace is None)
            ==> config.lane.integration_workspace@ == "navi-integration"@,
        (file.lane matches Some(lane) ==> lane.sparse is None) ==> !config.lane.sparse,
        (file.lane matches Some(lane) ==> lane.auto_resolve is None) ==> config.lane.auto_resolve,
        (file.lane matches Some(lane) ==> lane.target is None) ==> config.lane.target is None,
        (file.lane matches Some(lane) ==> lane.gate is None) ==> config.lane.gate is None,
        file.lane is None ==> config.lane.context_paths@.len() == 0,
{
    if file.lane is None {
        assert(types::path_views(config.lane.context_paths@).len()
            == config.lane.context_paths@.len());
    }
}

/// What a config file sets is in effect as it stands there; a blank target or
/// gate is none, and each policy is that of its own path.
pub proof fn law_config_settings_are_in_effect(config: RepoConfig, file: RepoConfigFile, k: int)
    requires
        config_matches(config, file),
    ensures
        config.workspace_template@ == file.workspace_template@,
        file.lane matches Some(lane) ==> {
            &&& lane.trunk matches Some(name) ==> config.lane.trunk@ == name@
            &&& lane.integration_workspace matches Some(name)
                ==> config.lane.integration_workspace@ == name@
            &&& lane.sparse matches Some(on) ==> config.lane.sparse == on
            &&& lane.auto_resolve matches Some(on) ==> config.lane.auto_resolve == on
            &&& lane.target matches Some(name) ==> (if text::trim(name@).len() > 0 {
                config.lane.target matches Some(found) && found@ == name@
            } else {
                config.lane.target is None
            })
            &&& lane.gate matches Some(gate) ==> (if text::trim(gate@).len() > 0 {
                config.lane.gate matches Some(found) && found@ == gate@
            } else {
                config.lane.gate is None
            })
            &&& config.lane.context_paths@.len() == lane.context_paths@.len()
            &&& 0 <= k < lane.context_paths@.len() ==> config.lane.context_paths@[k]@
                == types::normal_path(lane.context_paths@[k]@)
        },
        config.resolve@.len() == file.resolve@.len(),
        0 <= k < file.resolve@.len() ==> config.resolve@[k].path@ == file.resolve@[k].0
            && file.resolve@[k].1 == "union"@ && config.resolve@[k].strategy
            == ResolveStrategy::Union,
{
    if let Some(lane) = file.lane {
        let raw = text::views(lane.context_paths@);
        let got = types::path_views(config.lane.context_paths@);
        assert(got.len() == config.lane.context_paths@.len());
        assert(got == types::normal_paths(raw));
        assert(types::normal_paths(raw).len() == lane.context_paths@.len());
        if 0 <= k < lane.context_paths@.len() {
            assert(got[k] == config.lane.context_paths@[k]@);
            assert(types::normal_paths(raw)[k] == types::normal_path(raw[k]));
        }
    }
    if 0 <= k < file.resolve@.len() {
        assert(Some(config.resolve@[k].strategy) == ResolveStrategy::parsed(file.resolve@[k].1));
    }
}

} // verus!
