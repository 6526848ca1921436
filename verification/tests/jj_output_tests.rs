use jj_navi::error::Error;
use jj_navi::jj::JjRequest;
use jj_navi::jj_output::{
    collected_result, command_failed, diff_of, ensure_supported_version, freshness_of,
    is_update_stale_command, parse_current_workspace, parse_diff_stat, parse_diff_summary_paths,
    parse_jj_version, parse_revisions, parse_workspace_root, parse_workspaces, rebase_error,
    should_recover_stale, snapshot_was_stale, sparse_is_active, stderr_reports_stale,
    timed_out_of_date, timeout_millis, wait_step, JjVersion, Recovery, RecoveryStep,
    TimedCommandResult, WaitStep,
};
use jj_navi::types::{
    WorkspaceDiffStatus, WorkspaceFreshnessSnapshot, WorkspaceFreshnessStatus, WorkspaceName,
};

fn texts(values: &[&str]) -> Vec<String> {
    values.iter().map(|v| v.to_string()).collect()
}

#[test]
fn revisions_have_three_fields() {
    let found = parse_revisions("c1\0z1\0first\n\nc2\0z2\0has\0zero\n").unwrap();
    assert_eq!(found.len(), 2);
    assert_eq!(found[0].commit_id, "c1");
    assert_eq!(found[0].change_id, "z1");
    assert_eq!(found[0].message, "first");
    assert_eq!(found[1].message, "has\0zero");
    assert_eq!(
        parse_revisions("c1\0z1\n").unwrap_err(),
        Error::InvalidJjWorkspaceListEntry("c1\0z1".to_owned())
    );
    assert!(parse_revisions("").unwrap().is_empty());
}

#[test]
fn workspaces_have_five_fields() {
    let found =
        parse_workspaces("default\x001\0c\0z\0msg\n\"a\\\"b\"\x000\0c2\0z2\0\n").unwrap();
    assert_eq!(found.len(), 2);
    assert_eq!(found[0].name.as_str(), "default");
    assert!(found[0].is_current);
    assert_eq!(found[1].name.as_str(), "a\"b");
    assert!(!found[1].is_current);
    assert_eq!(found[1].message, "");
    for bad in ["default\x002\0c\0z\0m", "default\x001\0c\0z"] {
        assert_eq!(
            parse_workspaces(bad).unwrap_err(),
            Error::InvalidJjWorkspaceListEntry(bad.to_owned())
        );
    }
    assert_eq!(
        parse_workspaces("a b\x001\0c\0z\0m").unwrap_err(),
        Error::InvalidWorkspaceName("a b".to_owned())
    );
}

#[test]
fn the_current_workspace_is_the_first_line() {
    assert_eq!(parse_current_workspace("\nalpha\n").unwrap().as_str(), "alpha");
    assert_eq!(parse_current_workspace("\n\n").unwrap_err(), Error::OrphanedWorkspace);
}

#[test]
fn a_workspace_root_is_not_blank() {
    let name = WorkspaceName::new("alpha".to_owned()).unwrap();
    assert_eq!(parse_workspace_root(&name, " /repo/x \n").unwrap(), "/repo/x");
    assert_eq!(
        parse_workspace_root(&name, "\n").unwrap_err(),
        Error::JjCommandFailed {
            command: "jj workspace root --name alpha".to_owned(),
            stderr: "jj returned an empty workspace root".to_owned(),
        }
    );
}

#[test]
fn renames_touch_both_paths() {
    assert_eq!(
        parse_diff_summary_paths("M src/lib.rs\nR src/{old => new}/x.rs\nA b.txt\nnothing\nM b.txt\n"),
        texts(&["b.txt", "src/lib.rs", "src/new/x.rs", "src/old/x.rs"])
    );
    assert_eq!(parse_diff_summary_paths("A odd{name\n"), texts(&["odd{name"]));
    assert!(parse_diff_summary_paths("").is_empty());
}

#[test]
fn diff_stats_come_from_the_last_summary_line() {
    let stat = parse_diff_stat("a | 2 +-\n3 files changed, 14 insertions(+), 1 deletion(-)\n");
    assert_eq!(stat.status, WorkspaceDiffStatus::Available);
    assert_eq!(stat.files_changed, Some(3));
    assert_eq!(stat.insertions, Some(14));
    assert_eq!(stat.deletions, Some(1));
    assert_eq!(parse_diff_stat("nothing").status, WorkspaceDiffStatus::Unknown);
    let empty = parse_diff_stat("0 files changed, 99999999999 insertions(+)");
    assert_eq!(empty.files_changed, Some(0));
    assert_eq!(empty.insertions, None);
    let partial = parse_diff_stat("1 file changed, 5 insertions(+)");
    assert_eq!(partial.files_changed, Some(1));
    assert_eq!(partial.insertions, Some(5));
    assert_eq!(partial.deletions, None);
}

#[test]
fn versions_are_the_first_number() {
    assert_eq!(
        parse_jj_version("jj 0.43.0-abc123\n"),
        Some(JjVersion { major: 0, minor: 43, patch: 0 })
    );
    assert_eq!(parse_jj_version("jj dev"), None);
    assert_eq!(parse_jj_version("jj 1.2"), None);
    assert_eq!(parse_jj_version("jj 1.x.3"), None);
}

#[test]
fn old_versions_are_refused() {
    assert!(ensure_supported_version(false, "jj 0.39.0").is_ok());
    assert!(ensure_supported_version(false, "jj 1.0.0").is_ok());
    assert!(ensure_supported_version(true, "anything").is_ok());
    for bad in ["jj 0.38.9\n", "jj\n"] {
        assert_eq!(
            ensure_supported_version(false, bad).unwrap_err(),
            Error::UnsupportedJjVersion {
                found: bad.trim().to_owned(),
                minimum: "0.39.0".to_owned(),
            }
        );
    }
}

#[test]
fn a_workspace_is_sparse_unless_it_shows_everything() {
    assert!(!sparse_is_active(" . \n"));
    assert!(sparse_is_active("src\n"));
    assert!(sparse_is_active(".\nsrc\n"));
    assert!(sparse_is_active(""));
}

#[test]
fn staleness_is_read_in_any_case() {
    assert!(stderr_reports_stale("Error: The WORKING COPY is STALE (not updated)"));
    assert!(!stderr_reports_stale("stale"));
    assert!(!stderr_reports_stale("the working copy is fine"));
    assert!(snapshot_was_stale("STALE"));
    assert!(!snapshot_was_stale("fresh"));
}

#[test]
fn recovery_does_not_recurse() {
    let stale = "the working copy is stale";
    assert!(should_recover_stale(&JjRequest::snapshot(), stale));
    assert!(!should_recover_stale(&JjRequest::update_stale(), stale));
    assert!(!should_recover_stale(&JjRequest::snapshot(), "other"));
    assert!(is_update_stale_command(&JjRequest::update_stale()));
    assert!(!is_update_stale_command(&JjRequest::version()));
}

#[test]
fn failures_name_the_command() {
    let error = command_failed(&JjRequest::new_working_copy("@"), " boom \n");
    assert_eq!(
        error,
        Error::JjCommandFailed { command: "jj new @".to_owned(), stderr: "boom".to_owned() }
    );
    assert_eq!(rebase_error(error), Error::MergeRebaseFailed { stderr: "boom".to_owned() });
    assert_eq!(rebase_error(Error::RepoName), Error::RepoName);
}

#[test]
fn waiting_ends_at_the_deadline() {
    assert_eq!(wait_step(true, 10, 5), WaitStep::Collect);
    assert_eq!(wait_step(false, 5, 5), WaitStep::Stop);
    assert_eq!(wait_step(false, 4, 5), WaitStep::Sleep);
}

#[test]
fn only_the_output_that_matters_is_read() {
    let good = || Ok("out".to_owned());
    let bad = || Err("lost".to_owned());
    assert_eq!(collected_result(true, good(), bad()), TimedCommandResult::Success("out".to_owned()));
    assert_eq!(
        collected_result(false, bad(), Ok(" err ".to_owned())),
        TimedCommandResult::Failure("err".to_owned())
    );
    assert_eq!(collected_result(true, bad(), good()), TimedCommandResult::Io("lost".to_owned()));
    assert_eq!(
        collected_result(false, Err("first".to_owned()), bad()),
        TimedCommandResult::Io("first".to_owned())
    );
}

#[test]
fn bounded_snapshots_report_freshness() {
    let failure = |s: &str| TimedCommandResult::Failure(s.to_owned());
    assert_eq!(
        freshness_of(&TimedCommandResult::Success(String::new())),
        WorkspaceFreshnessSnapshot::current()
    );
    let blank = freshness_of(&failure("  "));
    assert_eq!(blank.status, WorkspaceFreshnessStatus::Failed);
    assert_eq!(blank.reason, Some("jj could not make the workspace current".to_owned()));
    assert_eq!(freshness_of(&failure(" why ")).reason, Some("why".to_owned()));
    assert_eq!(
        freshness_of(&TimedCommandResult::TimedOut),
        WorkspaceFreshnessSnapshot::timed_out()
    );
    assert_eq!(
        freshness_of(&TimedCommandResult::Io("gone".to_owned())).reason,
        Some("failed to run jj while making the workspace current: gone".to_owned())
    );
    assert!(timed_out_of_date(&failure("Working copy is Stale")));
    assert!(!timed_out_of_date(&TimedCommandResult::TimedOut));
    assert_eq!(diff_of(&failure("x")).status, WorkspaceDiffStatus::Unknown);
}

#[test]
fn time_limits_fall_back_to_the_default() {
    let set = |s: &str| Some(s.to_owned());
    assert_eq!(timeout_millis(&None, 2000), 2000);
    assert_eq!(timeout_millis(&set(" 150 "), 2000), 150);
    assert_eq!(timeout_millis(&set("0"), 2000), 0);
    assert_eq!(timeout_millis(&set("-1"), 2000), 2000);
    assert_eq!(timeout_millis(&set("soon"), 2000), 2000);
    assert_eq!(timeout_millis(&set("18446744073709551616"), 2000), 2000);
}

#[test]
fn a_stale_working_copy_is_recovered_once() {
    let mut facts = Recovery::start();
    assert_eq!(facts.step(), RecoveryStep::Run);
    facts.ran = true;
    assert_eq!(facts.step(), RecoveryStep::UseFirst);
    facts.stale = true;
    assert_eq!(facts.step(), RecoveryStep::UpdateStale);
    facts.updated = Some(false);
    assert_eq!(facts.step(), RecoveryStep::UseFirst);
    facts.updated = Some(true);
    assert_eq!(facts.step(), RecoveryStep::RunAgain);
    facts.ran_again = true;
    assert_eq!(facts.step(), RecoveryStep::UseSecond);
}
