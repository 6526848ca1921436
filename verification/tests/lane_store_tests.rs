use jj_navi::error::Error;
use jj_navi::lane_store::{
    parse_record, serialize_record, LaneEntry, LaneLandRecord, LaneRecord, LaneRecordFile,
    LaneStore, SavedEntry,
};
use jj_navi::timestamp::Timestamp;
use jj_navi::types::{LaneLifecycle, LanePath, WorkspaceName};

const NOW: Timestamp = Timestamp { unix_nanos: 1_700_000_000_000_000_000, offset_seconds: 0 };
const LATER: Timestamp = Timestamp { unix_nanos: 1_700_000_060_000_000_000, offset_seconds: 0 };
const NEVER: Timestamp = Timestamp { unix_nanos: i128::MAX, offset_seconds: 0 };

fn name(value: &str) -> WorkspaceName {
    WorkspaceName::new(value.to_owned()).unwrap()
}

fn record(lane: &str, paths: &[&str]) -> LaneRecord {
    LaneRecord {
        name: name(lane),
        paths: paths.iter().map(|p| LanePath::new(p.to_string()).unwrap()).collect(),
        created_at: NOW,
        lifecycle: LaneLifecycle::Open,
        closed_at: None,
        last_land: None,
    }
}

fn store(records: Vec<LaneRecord>) -> LaneStore {
    let mut store = LaneStore::empty("/s/navi/lanes.toml".to_owned());
    for record in records {
        store.insert(record).unwrap();
    }
    store
}

fn names(store: &LaneStore) -> Vec<&str> {
    store.records.iter().map(|r| r.name.as_str()).collect()
}

fn entry(toml: &str, decoded: Result<LaneRecordFile, String>) -> LaneEntry {
    LaneEntry { value: toml::Value::Table(toml.parse().unwrap()), decoded }
}

#[test]
fn records_round_trip_through_the_file_form() {
    let mut lane = record("alpha", &["src", "docs/guide.md"]);
    lane.lifecycle = LaneLifecycle::Closed;
    lane.closed_at = Some(LATER);
    lane.last_land = Some(LaneLandRecord {
        head_commit: "abc".to_owned(),
        change_id: Some("zyx".to_owned()),
        at: LATER,
    });
    let file = serialize_record(&lane, "/r").unwrap();
    assert_eq!(file.name, "alpha");
    assert_eq!(file.paths, vec!["src".to_owned(), "docs/guide.md".to_owned()]);
    assert_eq!(file.created_at, "2023-11-14T22:13:20Z");
    assert_eq!(file.lifecycle, "closed");
    assert_eq!(file.closed_at, Some("2023-11-14T22:14:20Z".to_owned()));
    assert_eq!(file.last_land_head, Some("abc".to_owned()));
    assert_eq!(file.last_land_change, Some("zyx".to_owned()));
    assert_eq!(parse_record(file, "/r").unwrap(), lane);
}

#[test]
fn a_time_that_cannot_be_written_is_an_error() {
    let mut lane = record("alpha", &["src"]);
    lane.created_at = NEVER;
    match serialize_record(&lane, "/r").unwrap_err() {
        Error::InvalidLaneRegistry { path, .. } => assert_eq!(path, "/r"),
        other => panic!("{other:?}"),
    }
    let mut all = LaneStore::empty("/r".to_owned());
    all.records.push(record("a", &["a"]));
    all.records.push(lane);
    assert!(matches!(all.to_files(), Err(Error::InvalidLaneRegistry { .. })));
}

#[test]
fn bad_file_forms_are_refused_by_the_first_problem() {
    let good = || serialize_record(&record("alpha", &["src"]), "/r").unwrap();
    let message = |file: LaneRecordFile| match parse_record(file, "/r").unwrap_err() {
        Error::InvalidLaneRegistry { message, .. } => message,
        other => panic!("{other:?}"),
    };
    let mut file = good();
    file.lifecycle = "paused".to_owned();
    assert_eq!(message(file), "unknown lane lifecycle 'paused'");
    let mut file = good();
    file.last_land_head = Some("abc".to_owned());
    assert_eq!(message(file), "last_land_head and last_land_at must be present together");
    let mut file = good();
    file.name = "a b".to_owned();
    assert_eq!(message(file), Error::InvalidWorkspaceName("a b".to_owned()).message());
    let mut file = good();
    file.paths.push("../x".to_owned());
    assert_eq!(message(file), Error::InvalidLanePath("../x".to_owned()).message());
    let mut file = good();
    file.created_at = "noon".to_owned();
    assert!(!message(file).is_empty());
}

#[test]
fn bad_entries_are_set_aside_and_kept() {
    let good = serialize_record(&record("alpha", &["src"]), "/r").unwrap();
    let mut broken = serialize_record(&record("beta", &["docs"]), "/r").unwrap();
    broken.lifecycle = "paused".to_owned();
    let loaded = LaneStore::load(
        "/s/lanes.toml".to_owned(),
        vec![
            entry("name = \"alpha\"", Ok(good)),
            entry("name = \"beta\"", Ok(broken)),
            entry("name = 3", Err("not a string".to_owned())),
        ],
    );
    assert_eq!(names(&loaded), ["alpha"]);
    assert_eq!(loaded.quarantined.len(), 2);
    assert_eq!(loaded.quarantined[0].get("name").and_then(|v| v.as_str()), Some("beta"));
    assert_eq!(
        loaded.warnings,
        vec![
            "skipped invalid lane record 'beta' in /s/lanes.toml: unknown lane lifecycle 'paused'"
                .to_owned(),
            "skipped invalid lane record '<unnamed>' in /s/lanes.toml: not a string".to_owned(),
        ]
    );
}

#[test]
fn saved_lanes_load_back() {
    let before = store(vec![record("beta", &["docs"]), record("alpha", &["src"])]);
    let entries = before
        .to_files()
        .unwrap()
        .into_iter()
        .map(|file| entry("", Ok(file)))
        .collect();
    let after = LaneStore::load(before.path.clone(), entries);
    assert_eq!(after.records, before.records);
    assert!(after.quarantined.is_empty());
    assert!(after.warnings.is_empty());
}

#[test]
fn lanes_are_kept_in_the_order_of_their_names() {
    let lanes = store(vec![record("c", &["c"]), record("a", &["a"]), record("b", &["b"])]);
    assert_eq!(names(&lanes), ["a", "b", "c"]);
}

#[test]
fn an_open_lane_is_not_replaced() {
    let mut lanes = store(vec![record("a", &["a"])]);
    assert_eq!(
        lanes.insert(record("a", &["other"])).unwrap_err(),
        Error::LaneExists("a".to_owned())
    );
    assert_eq!(lanes.records[0].paths[0].as_str(), "a");
    lanes.set_lifecycle(&name("a"), LaneLifecycle::Closed, LATER).unwrap();
    lanes.insert(record("a", &["other"])).unwrap();
    assert_eq!(lanes.records.len(), 1);
    assert_eq!(lanes.records[0].paths[0].as_str(), "other");
    assert_eq!(lanes.records[0].lifecycle, LaneLifecycle::Open);
}

#[test]
fn lifecycles_and_landings_are_recorded() {
    let mut lanes = store(vec![record("a", &["a"]), record("b", &["b"])]);
    lanes.set_lifecycle(&name("b"), LaneLifecycle::Abandoned, LATER).unwrap();
    assert_eq!(lanes.get(&name("b")).unwrap().lifecycle, LaneLifecycle::Abandoned);
    assert_eq!(lanes.get(&name("b")).unwrap().closed_at, Some(LATER));
    assert_eq!(lanes.open_lanes().len(), 1);
    lanes.record_land(&name("a"), "head", &None, LATER).unwrap();
    let land = lanes.get(&name("a")).unwrap().last_land.as_ref().unwrap();
    assert_eq!(land.head_commit, "head");
    assert_eq!(land.at, LATER);
    assert_eq!(lanes.get(&name("b")).unwrap().last_land, None);
}

#[test]
fn unknown_lanes_are_errors_that_change_nothing() {
    let mut lanes = store(vec![record("a", &["a"])]);
    let missing = || Error::LaneNotFound("x".to_owned());
    assert_eq!(
        lanes.set_lifecycle(&name("x"), LaneLifecycle::Closed, NOW).unwrap_err(),
        missing()
    );
    assert_eq!(lanes.record_land(&name("x"), "h", &None, NOW).unwrap_err(), missing());
    assert_eq!(lanes.replace_paths(&name("x"), Vec::new()).unwrap_err(), missing());
    lanes.remove(&name("x"));
    assert_eq!(lanes.records, vec![record("a", &["a"])]);
    lanes.remove(&name("a"));
    assert!(lanes.records.is_empty());
}

#[test]
fn what_could_not_be_read_rides_along() {
    let good = serialize_record(&record("beta", &["src"]), "/r").unwrap();
    let bad = || entry("name = \"odd\"\nmore = 3", Err("missing field".to_owned()));
    let mut before =
        LaneStore::load("/s/lanes.toml".to_owned(), vec![bad(), entry("", Ok(good)), bad()]);
    before.insert(record("alpha", &["docs"])).unwrap();
    let entries: Vec<LaneEntry> = before
        .save()
        .unwrap()
        .into_iter()
        .map(|saved| match saved {
            SavedEntry::Lane(file) => entry("", Ok(file)),
            SavedEntry::SetAside(value) => {
                LaneEntry { value: value.clone(), decoded: Err("missing field".to_owned()) }
            }
        })
        .collect();
    assert_eq!(entries.len(), 4);
    let after = LaneStore::load(before.path.clone(), entries);
    assert_eq!(names(&after), ["alpha", "beta"]);
    assert_eq!(after.records, before.records);
    assert_eq!(after.quarantined, before.quarantined);
    assert_eq!(after.quarantined.len(), 2);

    before.records[0].created_at = NEVER;
    assert!(matches!(before.save(), Err(Error::InvalidLaneRegistry { .. })));
}
