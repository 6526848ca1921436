use jj_navi::doctor::{
    collect_deep_findings, collect_workspace_findings, current_workspace, effective_config,
    effective_metadata, engine_findings, landed_change_request, merged_then_amended_findings,
    target_hygiene_findings, target_hygiene_requests, DeepAnswers, DoctorFinding,
    DoctorFindingCode, DoctorReport, DoctorScope, DoctorSeverity, DoctorSnapshot, EngineAnswers,
    MetadataEntry, TargetAnswers, CHURN_CAP, CHURN_WINDOW_SECONDS,
};
use jj_navi::engine::OpChurn;
use jj_navi::error::Error;
use jj_navi::lane_store::{LaneLandRecord, LaneRecord};
use jj_navi::timestamp::Timestamp;
use jj_navi::types::{
    LaneLifecycle, LanePath, LaneRev, RepoConfig, WorkspaceAgeSnapshot, WorkspaceDiffSnapshot,
    WorkspaceFreshnessSnapshot, WorkspaceHealthSnapshot, WorkspaceMetadataStatus, WorkspaceName,
    WorkspacePathSnapshot, WorkspacePathSource, WorkspacePathState, WorkspaceSnapshot,
};

const NOW: Timestamp = Timestamp { unix_nanos: 0, offset_seconds: 0 };

fn name(value: &str) -> WorkspaceName {
    WorkspaceName::new(value.to_owned()).unwrap()
}

fn rev(commit: &str) -> LaneRev {
    LaneRev {
        commit_id: commit.to_owned(),
        change_id: format!("change-{commit}"),
        message: String::new(),
    }
}

fn snapshot(
    workspace: &str,
    state: WorkspacePathState,
    source: WorkspacePathSource,
    expects_metadata: bool,
) -> DoctorSnapshot {
    DoctorSnapshot {
        snapshot: WorkspaceSnapshot {
            is_current: false,
            name: name(workspace),
            path: WorkspacePathSnapshot { path: format!("/w/{workspace}"), state, source },
            health: WorkspaceHealthSnapshot {
                statuses: Vec::new(),
                metadata_status: WorkspaceMetadataStatus::MissingRecord,
            },
            commit_id: "c".to_owned(),
            change_id: "x".to_owned(),
            message: String::new(),
            freshness: WorkspaceFreshnessSnapshot::current(),
            diff: WorkspaceDiffSnapshot::unknown(),
            age: WorkspaceAgeSnapshot::unknown(),
        },
        display_path: format!("~/{workspace}"),
        expects_metadata,
    }
}

fn clean() -> TargetAnswers {
    TargetAnswers { conflicted: Ok(0), divergent: Ok(0), undescribed: Ok(0) }
}

fn messages(findings: &[DoctorFinding]) -> Vec<&str> {
    findings.iter().map(|f| f.message.as_str()).collect()
}

fn landed(lane: &str, change: Option<&str>) -> LaneRecord {
    LaneRecord {
        name: name(lane),
        paths: vec![LanePath::new("src".to_owned()).unwrap()],
        created_at: NOW,
        lifecycle: LaneLifecycle::Open,
        closed_at: None,
        last_land: Some(LaneLandRecord {
            head_commit: "h1".to_owned(),
            change_id: change.map(str::to_owned),
            at: NOW,
        }),
    }
}

#[test]
fn doctor_deep_reports_target_hygiene() {
    let answers = DeepAnswers {
        engine: Ok(EngineAnswers {
            divergent: Ok(0),
            churn: Ok(OpChurn { recent: 4, capped: false }),
        }),
        target: Some(("main".to_owned(), clean())),
        conflicts: Ok(0),
        orphans: Ok(Vec::new()),
    };
    let findings = collect_deep_findings(&answers, &Vec::new(), &Vec::new());
    assert!(
        findings.iter().any(|finding| finding.code.label() == "target_hygiene"
            && finding.message.contains("clean and pushable")),
        "doctor --deep should report the target as clean: {findings:?}"
    );
}

#[test]
fn a_target_that_cannot_be_pushed_is_an_error() {
    let findings = target_hygiene_findings(
        "main",
        &TargetAnswers {
            conflicted: Ok(2),
            divergent: Err("timeout".to_owned()),
            undescribed: Ok(1),
        },
    );
    assert_eq!(
        messages(&findings),
        [
            "2 conflicted commit(s) in ::main",
            "could not check divergent change(s) for ::main: timeout",
            "1 undescribed non-empty commit(s) in ::main",
        ]
    );
    assert_eq!(findings[0].code, DoctorFindingCode::TargetHygiene);
    let (conflicts, divergent, undescribed) = target_hygiene_requests("main");
    assert_eq!(conflicts.args[3], "conflicts() & ::\"main\"");
    assert_eq!(divergent.args[3], "divergent() & ::\"main\"");
    assert_eq!(
        undescribed.args[3],
        "::\"main\" & description(exact:\"\") ~ empty() ~ root()"
    );
}

#[test]
fn the_engine_reports_divergence_and_churn() {
    let findings = engine_findings(&Ok(EngineAnswers {
        divergent: Ok(3),
        churn: Ok(OpChurn { recent: CHURN_CAP, capped: true }),
    }));
    assert_eq!(
        messages(&findings),
        ["3 divergent change(s)", "5000+ operation(s) in the last 24h"]
    );
    assert_eq!(findings[0].hint, Some("run: navi heal".to_owned()));
    let findings = engine_findings(&Err("no repo".to_owned()));
    assert_eq!(messages(&findings), ["embedded engine unavailable: no repo"]);
    let findings = engine_findings(&Ok(EngineAnswers {
        divergent: Err("a".to_owned()),
        churn: Err("b".to_owned()),
    }));
    assert_eq!(
        messages(&findings),
        [
            "could not enumerate divergent changes: a",
            "could not walk the operation log: b",
        ]
    );
    assert_eq!(CHURN_WINDOW_SECONDS, 24 * 60 * 60);
}

#[test]
fn deep_findings_say_what_could_not_be_read() {
    let findings = collect_deep_findings(
        &DeepAnswers {
            engine: Err("x".to_owned()),
            target: None,
            conflicts: Err("y".to_owned()),
            orphans: Err("z".to_owned()),
        },
        &Vec::new(),
        &Vec::new(),
    );
    assert_eq!(
        messages(&findings),
        [
            "embedded engine unavailable: x",
            "could not count conflicted commits: y",
            "could not inventory heads: z",
        ]
    );
}

#[test]
fn conflicts_and_orphans_are_counted() {
    let findings = collect_deep_findings(
        &DeepAnswers {
            engine: Err("x".to_owned()),
            target: None,
            conflicts: Ok(2),
            orphans: Ok(vec![rev("a"), rev("b")]),
        },
        &Vec::new(),
        &Vec::new(),
    );
    assert_eq!(
        messages(&findings)[1..],
        [
            "2 visible conflicted commit(s)",
            "2 orphan head(s): work not owned by any workspace or bookmark",
        ]
    );
    assert!(findings[2].hint.as_ref().unwrap().starts_with("for example: "));
}

#[test]
fn amended_landings_are_noticed() {
    let record = landed("alpha", Some("xyz"));
    assert_eq!(landed_change_request(&record).unwrap().args[3], "xyz");
    assert_eq!(landed_change_request(&landed("alpha", None)), None);
    let finding = |found: Option<Vec<LaneRev>>| -> Vec<String> {
        merged_then_amended_findings(&vec![landed("alpha", Some("xyz"))], &vec![found])
            .into_iter()
            .map(|f| f.message)
            .collect()
    };
    assert!(finding(Some(vec![rev("h1")])).is_empty());
    assert_eq!(
        finding(Some(vec![rev("h2")])),
        ["lane 'alpha' landed change xyz as h1 but it now points at h2"]
    );
    assert_eq!(
        finding(Some(Vec::new())),
        ["lane 'alpha' landed change xyz but it is no longer visible"]
    );
    assert_eq!(
        finding(Some(vec![rev("h1"), rev("h2")])),
        ["lane 'alpha' landed change xyz which is now divergent"]
    );
    assert_eq!(
        finding(None),
        ["lane 'alpha' landed change xyz which no longer resolves cleanly"]
    );
}

#[test]
fn workspaces_without_a_place_are_noticed() {
    let snapshots = vec![
        snapshot("a", WorkspacePathState::Inferred, WorkspacePathSource::NaviMetadata, false),
        snapshot("b", WorkspacePathState::Inferred, WorkspacePathSource::Template, false),
        snapshot("c", WorkspacePathState::Missing, WorkspacePathSource::JjRecorded, false),
        snapshot("d", WorkspacePathState::Stale, WorkspacePathSource::JjRecorded, false),
        snapshot("e", WorkspacePathState::Confirmed, WorkspacePathSource::JjRecorded, true),
        snapshot("f", WorkspacePathState::Confirmed, WorkspacePathSource::JjRecorded, false),
    ];
    let entries = vec![
        MetadataEntry { name: name("a"), display_path: None },
        MetadataEntry { name: name("z"), display_path: Some("~/z".to_owned()) },
    ];
    let findings = collect_workspace_findings(&snapshots, &entries, true);
    assert_eq!(
        messages(&findings),
        [
            "workspace 'a' is using a validated metadata fallback path",
            "workspace 'b' is using a validated template path",
            "workspace 'c' directory is missing",
            "workspace 'd' directory is stale",
            "workspace 'e' exists in jj but has no navi metadata",
            "metadata exists for workspace 'z' but jj no longer lists it",
        ]
    );
    assert_eq!(findings[5].path, Some("~/z".to_owned()));
    assert_eq!(findings[5].scope, DoctorScope::Workspace { workspace: "z".to_owned() });
    let without = collect_workspace_findings(&snapshots, &entries, false);
    assert!(!messages(&without).contains(&"workspace 'e' exists in jj but has no navi metadata"));
}

#[test]
fn broken_files_are_findings() {
    let orphaned = current_workspace(Err(Error::OrphanedWorkspace), "/w");
    let (current, findings) = orphaned.unwrap();
    assert!(current.is_none());
    assert_eq!(
        messages(&findings),
        ["current directory is no longer a registered jj workspace"]
    );
    let (current, findings) = current_workspace(Ok(name("a")), "/w").unwrap();
    assert_eq!(current, Some(name("a")));
    assert!(findings.is_empty());
    assert_eq!(
        current_workspace(Err(Error::NotInWorkspace), "/w").err().unwrap(),
        Error::NotInWorkspace
    );

    let broken = Error::InvalidRepoConfig { path: "/c".to_owned(), message: "bad".to_owned() };
    let (config, valid, findings) = effective_config(Err(broken)).unwrap();
    assert_eq!(config, RepoConfig::default());
    assert!(!valid);
    assert_eq!(findings[0].code, DoctorFindingCode::InvalidRepoConfig);
    assert_eq!(messages(&findings), ["invalid repo config in /c"]);
    assert!(effective_config(Err(Error::NotInWorkspace)).is_err());
    assert!(effective_config(Ok(RepoConfig::default())).unwrap().1);

    let broken =
        Error::InvalidWorkspaceMetadata { path: "/m".to_owned(), message: "bad".to_owned() };
    let (entries, valid, findings) = effective_metadata(Err(broken)).unwrap();
    assert!(entries.is_empty() && !valid);
    assert_eq!(messages(&findings), ["invalid workspace metadata in /m"]);
}

#[test]
fn serious_findings_come_first() {
    let finding = |severity: DoctorSeverity, message: &str| DoctorFinding {
        severity,
        code: DoctorFindingCode::OpChurn,
        scope: DoctorScope::Repo,
        message: message.to_owned(),
        path: None,
        hint: None,
    };
    let report = DoctorReport::assemble(
        vec![finding(DoctorSeverity::Info, "i1"), finding(DoctorSeverity::Warning, "w1")],
        vec![finding(DoctorSeverity::Error, "e1")],
        vec![finding(DoctorSeverity::Warning, "w2")],
        vec![finding(DoctorSeverity::Info, "i2"), finding(DoctorSeverity::Error, "e2")],
    );
    assert_eq!(messages(&report.findings), ["e1", "e2", "w1", "w2", "i1", "i2"]);
    assert_eq!(DoctorSeverity::Error.label(), "error");
}
