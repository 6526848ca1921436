use jj_navi::error::{Error, ErrorKind};
use jj_navi::types::{
    parse_lane_paths, LanePath, LaneConfig, LaneLifecycle, RepoConfig, ResolveStrategy, ShellKind,
    WorkspaceDiffSnapshot, WorkspaceDiffStatus, WorkspaceFreshnessSnapshot,
    WorkspaceFreshnessStatus, WorkspaceListStatus, WorkspaceMergeRole, WorkspaceMetadataStatus,
    WorkspaceName, WorkspacePathSource, WorkspacePathState, WorkspaceTemplate,
};

fn name(value: &str) -> WorkspaceName {
    WorkspaceName::new(value.to_owned()).unwrap()
}

fn path(value: &str) -> LanePath {
    LanePath::new(value.to_owned()).unwrap()
}

fn path_error(value: &str) -> Error {
    LanePath::new(value.to_owned()).unwrap_err()
}

#[test]
fn workspace_names_are_one_plain_component() {
    assert_eq!(name("feature-auth").as_str(), "feature-auth");
    assert_eq!(name("...").as_str(), "...");
    for bad in ["", ".", "..", "a/b", "a\\b", "a b", "a\tb", "a\u{3000}b", "a\n"] {
        assert_eq!(
            WorkspaceName::new(bad.to_owned()).unwrap_err(),
            Error::InvalidWorkspaceName(bad.to_owned())
        );
    }
}

#[test]
fn equal_names_are_the_same() {
    assert!(name("a").same_as(&name("a")));
    assert!(!name("a").same_as(&name("b")));
    assert_eq!(name("a").clone(), name("a"));
}

#[test]
fn templates_know_two_placeholders() {
    for good in ["", "plain", "../{repo}.{workspace}", "{workspace}", "{repo}{repo}"] {
        assert_eq!(WorkspaceTemplate::new(good.to_owned()).unwrap().as_str(), good);
    }
    for bad in ["{other}", "{repo", "repo}", "{}", "{{repo}}", "}", "{Repo}", "{repo }"] {
        assert_eq!(
            WorkspaceTemplate::new(bad.to_owned()).unwrap_err(),
            Error::InvalidWorkspaceTemplate(bad.to_owned())
        );
    }
}

#[test]
fn templates_render_each_placeholder() {
    let template = WorkspaceTemplate::default();
    assert_eq!(template.as_str(), "../{repo}.{workspace}");
    assert_eq!(template.render("navi", &name("alpha")), "../navi.alpha");
    let twice = WorkspaceTemplate::new("{workspace}/{repo}-{workspace}".to_owned()).unwrap();
    assert_eq!(twice.render("{workspace}", &name("w")), "w/{workspace}-w");
}

#[test]
fn lane_paths_are_normalized() {
    assert_eq!(path("src").as_str(), "src");
    assert_eq!(path("  ./src/auth//  ").as_str(), "src/auth");
    assert_eq!(path("././src").as_str(), "src");
    assert_eq!(path("a..b").as_str(), "a..b");
    assert_eq!(path(".hidden").as_str(), ".hidden");
}

#[test]
fn lane_paths_stay_inside_the_repo() {
    for bad in [
        "", "/", "./", "/abs", "a\\b", ".", "..", "../up", "a/../b", "a/..", "a/./b", "a/.", "*.rs",
        "a?", "a[1", "a]",
    ] {
        assert_eq!(path_error(bad), Error::InvalidLanePath(bad.to_owned()), "{bad:?}");
    }
}

#[test]
fn lane_paths_contain_what_lies_under_them() {
    let src = path("src");
    assert!(src.contains("src"));
    assert!(src.contains("src/lib.rs"));
    assert!(src.contains("./src/lib.rs"));
    assert!(!src.contains("srcs/lib.rs"));
    assert!(!src.contains("docs/src"));
    assert!(!src.contains("sr"));
}

#[test]
fn overlap_is_symmetric_and_follows_nesting() {
    assert!(path("src").overlaps(&path("src/nested")));
    assert!(path("src/nested").overlaps(&path("src")));
    assert!(path("src").overlaps(&path("src")));
    assert!(!path("src").overlaps(&path("srcs")));
    assert!(!path("src/a").overlaps(&path("src/b")));
}

#[test]
fn the_first_bad_lane_path_is_reported() {
    let good = parse_lane_paths(&vec!["src/".to_owned(), "docs".to_owned()]).unwrap();
    assert_eq!(good, vec![path("src"), path("docs")]);
    let bad = parse_lane_paths(&vec!["src".to_owned(), "../x".to_owned(), "/y".to_owned()]);
    assert_eq!(bad.unwrap_err(), Error::InvalidLanePath("../x".to_owned()));
}

#[test]
fn lifecycles_round_trip() {
    for (lifecycle, label) in [
        (LaneLifecycle::Open, "open"),
        (LaneLifecycle::Closed, "closed"),
        (LaneLifecycle::Abandoned, "abandoned"),
    ] {
        assert_eq!(lifecycle.as_str(), label);
        assert_eq!(LaneLifecycle::parse(label), Some(lifecycle));
    }
    assert_eq!(LaneLifecycle::parse("Open"), None);
    assert_eq!(LaneLifecycle::parse(""), None);
}

#[test]
fn shells_are_bash_and_zsh() {
    assert_eq!(ShellKind::new("bash").unwrap(), ShellKind::Bash);
    assert_eq!(ShellKind::new("zsh").unwrap(), ShellKind::Zsh);
    assert_eq!(ShellKind::new("fish").unwrap_err(), Error::UnsupportedShell("fish".to_owned()));
    assert_eq!(ShellKind::Bash.as_str(), "bash");
    assert_eq!(ShellKind::Zsh.as_str(), "zsh");
    assert_eq!(ShellKind::Bash.rc_file_name(), ".bashrc");
    assert_eq!(ShellKind::Zsh.rc_file_name(), ".zshrc");
}

#[test]
fn path_sources_and_states_have_labels() {
    assert!(WorkspacePathSource::NaviMetadata.is_inferred());
    assert!(WorkspacePathSource::Template.is_inferred());
    assert!(!WorkspacePathSource::JjRecorded.is_inferred());
    assert!(!WorkspacePathSource::CurrentWorkspace.is_inferred());
    assert!(WorkspacePathSource::Template.needs_switch_warning());
    assert!(!WorkspacePathSource::RepoPrimary.needs_switch_warning());
    assert_eq!(WorkspacePathState::Confirmed.label(), "confirmed");
    assert_eq!(WorkspacePathState::Missing.label(), "missing");
    assert_eq!(WorkspaceListStatus::Healthy.label(), "ok");
    assert_eq!(WorkspaceMergeRole::Source.label(), "source");
    assert_eq!(WorkspaceMergeRole::Target.label(), "target");
    assert!(!WorkspaceMetadataStatus::MissingRecord.label().is_empty());
}

#[test]
fn freshness_snapshots_say_what_happened() {
    let current = WorkspaceFreshnessSnapshot::current();
    assert_eq!(current.status, WorkspaceFreshnessStatus::Current);
    let failed = WorkspaceFreshnessSnapshot::failed("boom".to_owned());
    assert_eq!(failed.status, WorkspaceFreshnessStatus::Failed);
    assert_eq!(failed.reason, Some("boom".to_owned()));
    assert_ne!(WorkspaceFreshnessSnapshot::timed_out().status, current.status);
    assert_ne!(
        WorkspaceFreshnessSnapshot::skipped_missing().status,
        WorkspaceFreshnessSnapshot::skipped_stale().status
    );
}

#[test]
fn an_unknown_diff_knows_nothing() {
    let unknown = WorkspaceDiffSnapshot::unknown();
    assert_eq!(unknown.status, WorkspaceDiffStatus::Unknown);
    assert_eq!(unknown.files_changed, None);
    assert_eq!(unknown.insertions, None);
    assert_eq!(unknown.deletions, None);
}

#[test]
fn defaults_are_the_documented_ones() {
    let config = RepoConfig::default();
    assert_eq!(config.workspace_template.as_str(), "../{repo}.{workspace}");
    assert_eq!(config.resolve.len(), 0);
    let lane = LaneConfig::default();
    assert_eq!(lane.trunk.as_str(), "default");
    assert_eq!(lane.integration_workspace.as_str(), "navi-integration");
    assert_eq!(lane.target, None);
    assert_eq!(lane.gate, None);
    assert!(!lane.sparse);
    assert!(lane.auto_resolve);
    assert_eq!(ResolveStrategy::parse("union"), Some(ResolveStrategy::Union));
    assert_eq!(ResolveStrategy::parse("take"), None);
    assert_eq!(ResolveStrategy::Union.as_str(), "union");
}

#[test]
fn invalid_names_carry_their_code() {
    let error = WorkspaceName::new("a b".to_owned()).unwrap_err();
    assert_eq!(error.kind(), ErrorKind::InvalidWorkspaceName);
    assert_eq!(error.code(), "invalid-workspace-name");
}

#[test]
fn a_path_is_as_good_as_what_is_found_there() {
    use_state(WorkspacePathSource::JjRecorded, false, false, WorkspacePathState::Missing);
    use_state(WorkspacePathSource::JjRecorded, true, false, WorkspacePathState::Stale);
    use_state(WorkspacePathSource::Template, true, true, WorkspacePathState::Inferred);
    use_state(WorkspacePathSource::NaviMetadata, true, true, WorkspacePathState::Inferred);
    use_state(WorkspacePathSource::CurrentWorkspace, true, true, WorkspacePathState::Confirmed);
}

fn use_state(
    source: WorkspacePathSource,
    on_disk: bool,
    validates: bool,
    state: WorkspacePathState,
) {
    assert_eq!(WorkspacePathState::of(source, on_disk, validates), state);
}
