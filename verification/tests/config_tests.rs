use jj_navi::config::{
    archive_dir_path, lane_store_path, load_repo_config, lock_path, navi_dir_path, path_join,
    render_config_scaffold, repo_config_path, repo_state_path, LaneConfigFile, RepoConfigFile,
    ResolveTable,
};
use jj_navi::error::Error;
use jj_navi::types::{RepoConfig, ResolveStrategy};

fn lane() -> LaneConfigFile {
    LaneConfigFile {
        trunk: None,
        target: None,
        integration_workspace: None,
        gate: None,
        sparse: None,
        auto_resolve: None,
        context_paths: Vec::new(),
    }
}

fn file(lane: Option<LaneConfigFile>) -> RepoConfigFile {
    RepoConfigFile {
        workspace_template: "../{repo}.{workspace}".to_owned(),
        lane,
        resolve: ResolveTable::new(),
    }
}

fn resolve_table(policies: &[(&str, &str)]) -> ResolveTable {
    policies.iter().fold(ResolveTable::new(), |table, (path, strategy)| {
        table.with(path.to_string(), strategy.to_string())
    })
}

fn problem(file: &RepoConfigFile) -> String {
    match load_repo_config("/s/navi/config.toml", file).unwrap_err() {
        Error::InvalidRepoConfig { path, message } => {
            assert_eq!(path, "/s/navi/config.toml");
            message
        }
        other => panic!("{other:?}"),
    }
}

#[test]
fn storage_paths_are_under_navi() {
    assert_eq!(path_join("/s", "x"), "/s/x");
    assert_eq!(path_join("/s/", "x"), "/s/x");
    assert_eq!(navi_dir_path("/s"), "/s/navi");
    assert_eq!(repo_config_path("/s"), "/s/navi/config.toml");
    assert_eq!(repo_state_path("/s"), "/s/navi/state.toml");
    assert_eq!(lane_store_path("/s"), "/s/navi/lanes.toml");
    assert_eq!(lock_path("/s"), "/s/navi/mutation.lock");
    assert_eq!(archive_dir_path("/s"), "/s/navi/archive");
}

#[test]
fn a_bare_config_has_the_defaults() {
    let config = load_repo_config("/c", &file(None)).unwrap();
    assert_eq!(config, RepoConfig::default());
}

#[test]
fn a_full_config_is_taken_over() {
    let mut table = lane();
    table.trunk = Some("main".to_owned());
    table.target = Some("release".to_owned());
    table.integration_workspace = Some("integ".to_owned());
    table.gate = Some("cargo test".to_owned());
    table.sparse = Some(true);
    table.auto_resolve = Some(false);
    table.context_paths = vec!["./AGENTS.md".to_owned()];
    let mut source = file(Some(table));
    source.resolve = resolve_table(&[("CHANGELOG.md", "union")]);
    let config = load_repo_config("/c", &source).unwrap();
    assert_eq!(config.lane.trunk.as_str(), "main");
    assert_eq!(config.lane.target, Some("release".to_owned()));
    assert_eq!(config.lane.integration_workspace.as_str(), "integ");
    assert_eq!(config.lane.gate, Some("cargo test".to_owned()));
    assert!(config.lane.sparse);
    assert!(!config.lane.auto_resolve);
    assert_eq!(config.lane.context_paths[0].as_str(), "AGENTS.md");
    assert_eq!(config.resolve[0].path, "CHANGELOG.md");
    assert_eq!(config.resolve[0].strategy, ResolveStrategy::Union);
}

#[test]
fn blank_settings_do_not_count() {
    let mut table = lane();
    table.target = Some("  ".to_owned());
    table.gate = Some("\t".to_owned());
    let config = load_repo_config("/c", &file(Some(table))).unwrap();
    assert_eq!(config.lane.target, None);
    assert_eq!(config.lane.gate, None);
}

#[test]
fn the_first_problem_is_reported() {
    let mut bad_template = file(None);
    bad_template.workspace_template = "{x}".to_owned();
    assert_eq!(problem(&bad_template), Error::InvalidWorkspaceTemplate("{x}".to_owned()).message());

    let mut table = lane();
    table.trunk = Some("a b".to_owned());
    table.context_paths = vec!["../x".to_owned()];
    assert_eq!(
        problem(&file(Some(table))),
        Error::InvalidWorkspaceName("a b".to_owned()).message()
    );

    let mut table = lane();
    table.integration_workspace = Some(String::new());
    assert_eq!(problem(&file(Some(table))), Error::InvalidWorkspaceName(String::new()).message());

    let mut table = lane();
    table.context_paths = vec!["ok".to_owned(), "../x".to_owned()];
    assert_eq!(
        problem(&file(Some(table))),
        Error::InvalidLanePath("../x".to_owned()).message()
    );

    let mut policies = file(None);
    policies.resolve = resolve_table(&[("b", "ours"), ("a", "union")]);
    assert_eq!(problem(&policies), "unknown resolve strategy 'ours' for 'b' (supported: union)");
}

#[test]
fn the_scaffold_documents_every_setting() {
    let text = render_config_scaffold(&RepoConfig::default());
    assert!(text.starts_with(
        "# jj-navi repo configuration. Uncomment and edit to change behavior.\n\n# Template for planning new workspace directories.\nworkspace_template = \"../{repo}.{workspace}\"\n\n# [lane]\n"
    ));
    for setting in [
        "trunk", "target", "integration_workspace", "gate", "sparse", "context_paths",
    ] {
        assert!(text.contains(&format!("# {setting} = ")), "{setting}");
    }
    assert!(text.ends_with("# \"CHANGELOG.md\" = \"union\"\n"));
}

#[test]
fn policies_stand_in_order_of_their_paths() {
    let mut source = file(None);
    source.resolve = resolve_table(&[("c", "union"), ("a", "ours"), ("b", "union"), ("a", "union")]);
    let config = load_repo_config("/c", &source).unwrap();
    let paths: Vec<&str> = config.resolve.iter().map(|policy| policy.path.as_str()).collect();
    assert_eq!(paths, ["a", "b", "c"]);
    source.resolve = resolve_table(&[("z", "theirs"), ("y", "ours")]);
    assert_eq!(problem(&source), "unknown resolve strategy 'ours' for 'y' (supported: union)");
}
