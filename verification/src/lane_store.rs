//! The lane registry: declared write-sets, lifecycles and landings.

use vstd::prelude::*;

use crate::error::{self, Error, ErrorKind, Result};
use crate::order::{self, sort_rising};
use crate::text::{self, cat3, copy, copy_opt, same};
use crate::timestamp::Timestamp;
use crate::types::{self, parse_lane_paths, path_texts, LaneLifecycle, LanePath, WorkspaceName};

verus! {

/// A value of a TOML document.
#[verifier::external_type_specification]
#[verifier::external_body]
pub struct ExTomlValue(toml::Value);

/// The entries of a TOML table whose values are strings; none for a value
/// that is no table.
pub uninterp spec fn table_texts(value: toml::Value) -> Map<Seq<char>, Seq<char>>;

/// The string under `key` in a TOML table.
pub open spec fn table_text(value: toml::Value, key: Seq<char>) -> Option<Seq<char>> {
    if table_texts(value).dom().contains(key) {
        Some(table_texts(value)[key])
    } else {
        None
    }
}

/// `toml::Value::get` with a string key, and `toml::Value::as_str` on what it
/// finds: the string that a table holds under the key, if it holds one.
#[verifier::external_body]
fn entry_text(value: &toml::Value, key: &str) -> (res: Option<String>)
    ensures
        match res {
            Some(s) => table_texts(*value).dom().contains(key@) && table_texts(*value)[key@] == s@,
            None => !table_texts(*value).dom().contains(key@),
        },
{
    value.get(key).and_then(|v| v.as_str()).map(|s| s.to_owned())
}

/// The most recent landing of a lane.
#[derive(Debug, PartialEq, Eq)]
pub struct LaneLandRecord {
    /// Commit the trunk was advanced to.
    pub head_commit: String,
    /// Change of that commit, where it was recorded.
    pub change_id: Option<String>,
    /// When the lane landed.
    pub at: Timestamp,
}

/// What the registry knows of one lane.
#[derive(Debug, PartialEq, Eq)]
pub struct LaneRecord {
    /// Lane name.
    pub name: WorkspaceName,
    /// Declared write-set.
    pub paths: Vec<LanePath>,
    /// When the lane was opened.
    pub created_at: Timestamp,
    /// Lifecycle state.
    pub lifecycle: LaneLifecycle,
    /// When the lane was retired.
    pub closed_at: Option<Timestamp>,
    /// The most recent landing.
    pub last_land: Option<LaneLandRecord>,
}

/// A landing as mathematical values.
pub struct LandView {
    pub head_commit: Seq<char>,
    pub change_id: Option<Seq<char>>,
    pub at: Timestamp,
}

/// A lane record as mathematical values.
pub struct RecordView {
    pub name: Seq<char>,
    pub paths: Seq<Seq<char>>,
    pub created_at: Timestamp,
    pub lifecycle: LaneLifecycle,
    pub closed_at: Option<Timestamp>,
    pub last_land: Option<LandView>,
}

impl View for LaneLandRecord {
    type V = LandView;

    open spec fn view(&self) -> LandView {
        LandView {
            head_commit: self.head_commit@,
            change_id: text::opt_view(self.change_id),
            at: self.at,
        }
    }
}

impl View for LaneRecord {
    type V = RecordView;

    open spec fn view(&self) -> RecordView {
        RecordView {
            name: self.name@,
            paths: types::path_views(self.paths@),
            created_at: self.created_at,
            lifecycle: self.lifecycle,
            closed_at: self.closed_at,
            last_land: match self.last_land {
                Some(land) => Some(land@),
                None => None,
            },
        }
    }
}

/// The views of a list of records.
pub open spec fn record_views(records: Seq<LaneRecord>) -> Seq<RecordView> {
    records.map_values(|r: LaneRecord| r@)
}

// ---------------------------------------------------------------------------
// Records as they stand in the registry file

/// A lane record in the form in which the registry file holds it.
#[derive(Debug, PartialEq, Eq)]
pub struct LaneRecordFile {
    pub name: String,
    pub paths: Vec<String>,
    pub created_at: String,
    pub lifecycle: String,
    pub closed_at: Option<String>,
    pub last_land_head: Option<String>,
    pub last_land_change: Option<String>,
    pub last_land_at: Option<String>,
}

/// The texts of a record in the registry file.
pub struct FileView {
    pub name: Seq<char>,
    pub paths: Seq<Seq<char>>,
    pub created_at: Seq<char>,
    pub lifecycle: Seq<char>,
    pub closed_at: Option<Seq<char>>,
    pub last_land_head: Option<Seq<char>>,
    pub last_land_change: Option<Seq<char>>,
    pub last_land_at: Option<Seq<char>>,
}

impl View for LaneRecordFile {
    type V = FileView;

    open spec fn view(&self) -> FileView {
        FileView {
            name: self.name@,
            paths: text::views(self.paths@),
            created_at: self.created_at@,
            lifecycle: self.lifecycle@,
            closed_at: text::opt_view(self.closed_at),
            last_land_head: text::opt_view(self.last_land_head),
            last_land_change: text::opt_view(self.last_land_change),
            last_land_at: text::opt_view(self.last_land_at),
        }
    }
}

/// The text of an optional time.
pub open spec fn opt_time_text(time: Option<Timestamp>) -> std::result::Result<
    Option<Seq<char>>,
    Seq<char>,
> {
    match time {
        None => Ok(None),
        Some(t) => match t.text() {
            Ok(s) => Ok(Some(s)),
            Err(e) => Err(e),
        },
    }
}

/// The time that an optional text stands for.
pub open spec fn opt_time_of(text: Option<Seq<char>>) -> std::result::Result<
    Option<Timestamp>,
    Seq<char>,
> {
    match text {
        None => Ok(None),
        Some(s) => match Timestamp::of_text(s) {
            Ok(t) => Ok(Some(t)),
            Err(e) => Err(e),
        },
    }
}

/// The file form of a record, or why a time in it cannot be written.
pub open spec fn file_of(record: RecordView) -> std::result::Result<FileView, Seq<char>> {
    let land_at = match record.last_land {
        Some(land) => Some(land.at),
        None => None,
    };
    match (record.created_at.text(), opt_time_text(record.closed_at), opt_time_text(land_at)) {
        (Err(e), _, _) => Err(e),
        (Ok(_), Err(e), _) => Err(e),
        (Ok(_), Ok(_), Err(e)) => Err(e),
        (Ok(created_at), Ok(closed_at), Ok(last_land_at)) => Ok(
            FileView {
                name: record.name,
                paths: record.paths,
                created_at,
                lifecycle: record.lifecycle.label_text(),
                closed_at,
                last_land_head: match record.last_land {
                    Some(land) => Some(land.head_commit),
                    None => None,
                },
                last_land_change: match record.last_land {
                    Some(land) => land.change_id,
                    None => None,
                },
                last_land_at,
            },
        ),
    }
}

/// The landing that a record in the file holds.
pub open spec fn land_of(file: FileView) -> std::result::Result<Option<LandView>, Seq<char>> {
    match (file.last_land_head, file.last_land_at) {
        (Some(head_commit), Some(at)) => match Timestamp::of_text(at) {
            Ok(at) => Ok(Some(LandView { head_commit, change_id: file.last_land_change, at })),
            Err(e) => Err(e),
        },
        (None, None) => Ok(None),
        _ => Err("last_land_head and last_land_at must be present together"@),
    }
}

/// The record that the file form stands for, or the first thing that is wrong
/// with it.
pub open spec fn record_of(file: FileView) -> std::result::Result<RecordView, Seq<char>> {
    match LaneLifecycle::parsed(file.lifecycle) {
        None => Err("unknown lane lifecycle '"@ + file.lifecycle + "'"@),
        Some(lifecycle) => match land_of(file) {
            Err(e) => Err(e),
            Ok(last_land) => if !types::valid_name(file.name) {
                Err(error::about(ErrorKind::InvalidWorkspaceName, file.name).message())
            } else {
                match types::bad_path(file.paths) {
                    Some(p) => Err(error::about(ErrorKind::InvalidLanePath, p).message()),
                    None => match (
                        Timestamp::of_text(file.created_at),
                        opt_time_of(file.closed_at),
                    ) {
                        (Err(e), _) => Err(e),
                        (Ok(_), Err(e)) => Err(e),
                        (Ok(created_at), Ok(closed_at)) => Ok(
                            RecordView {
                                name: file.name,
                                paths: types::normal_paths(file.paths),
                                created_at,
                                lifecycle,
                                closed_at,
                                last_land,
                            },
                        ),
                    },
                }
            },
        },
    }
}

/// No path of the record starts or ends with whitespace.
pub open spec fn plain_paths(record: RecordView) -> bool {
    forall|i: int|
        0 <= i < record.paths.len() ==> text::trim(#[trigger] record.paths[i]) == record.paths[i]
}

/// The registry error with this message.
pub open spec fn registry_error(path: Seq<char>, message: Seq<char>) -> error::ErrorView {
    error::about2(ErrorKind::InvalidLaneRegistry, path, message)
}

fn opt_time_string(time: &Option<Timestamp>) -> (res: std::result::Result<Option<String>, String>)
    ensures
        match res {
            Ok(s) => opt_time_text(*time) == Ok::<Option<Seq<char>>, Seq<char>>(text::opt_view(s))
                && opt_time_of(text::opt_view(s)) == Ok::<Option<Timestamp>, Seq<char>>(*time),
            Err(e) => opt_time_text(*time) == Err::<Option<Seq<char>>, Seq<char>>(e@),
        },
{
    match time {
        None => Ok(None),
        Some(t) => match t.format() {
            Ok(s) => Ok(Some(s)),
            Err(e) => Err(e),
        },
    }
}

fn opt_time(value: &Option<String>) -> (res: std::result::Result<Option<Timestamp>, String>)
    ensures
        match res {
            Ok(t) => opt_time_of(text::opt_view(*value)) == Ok::<Option<Timestamp>, Seq<char>>(t),
            Err(e) => opt_time_of(text::opt_view(*value)) == Err::<Option<Timestamp>, Seq<char>>(
                e@,
            ),
        },
{
    match value {
        None => Ok(None),
        Some(s) => match Timestamp::parse(s.as_str()) {
            Ok(t) => Ok(Some(t)),
            Err(e) => Err(e),
        },
    }
}

/// The file form of a record. What is written reads back as the same record,
/// as long as no path starts or ends with whitespace, which reading trims.
pub fn serialize_record(record: &LaneRecord, path: &str) -> (res: Result<LaneRecordFile>)
    ensures
        match res {
            Ok(file) => file_of(record@) == Ok::<FileView, Seq<char>>(file@) && (plain_paths(
                record@,
            ) ==> record_of(file@) == Ok::<RecordView, Seq<char>>(record@)),
            Err(e) => file_of(record@) matches Err(message) && e@ == registry_error(path@, message),
        },
{
    let created_at = match record.created_at.format() {
        Ok(s) => s,
        Err(message) => {
            return Err(Error::InvalidLaneRegistry { path: copy(path), message });
        },
    };
    let closed_at = match opt_time_string(&record.closed_at) {
        Ok(s) => s,
        Err(message) => {
            return Err(Error::InvalidLaneRegistry { path: copy(path), message });
        },
    };
    let land_at = match &record.last_land {
        Some(land) => Some(land.at),
        None => None,
    };
    let last_land_at = match opt_time_string(&land_at) {
        Ok(s) => s,
        Err(message) => {
            return Err(Error::InvalidLaneRegistry { path: copy(path), message });
        },
    };
    let last_land_head = match &record.last_land {
        Some(land) => Some(copy(land.head_commit.as_str())),
        None => None,
    };
    let last_land_change = match &record.last_land {
        Some(land) => copy_opt(&land.change_id),
        None => None,
    };
    let file = LaneRecordFile {
        name: copy(record.name.as_str()),
        paths: path_texts(&record.paths),
        created_at,
        lifecycle: copy(record.lifecycle.as_str()),
        closed_at,
        last_land_head,
        last_land_change,
        last_land_at,
    };
    proof {
        types::law_lifecycle_round_trip(record.lifecycle);
    }
    proof {
        if plain_paths(record@) {
            let raw = record@.paths;
            lemma_no_bad_path(raw, 0);
            assert(types::normal_paths(raw) =~= raw) by {
                assert forall|i: int| 0 <= i < raw.len() implies types::normal_paths(raw)[i]
                    == raw[i] by {
                    types::law_normal_path_is_stable(raw[i]);
                }
            }
        }
    }
    Ok(file)
}

proof fn lemma_no_bad_path(raw: Seq<Seq<char>>, i: int)
    requires
        0 <= i <= raw.len(),
        forall|k: int|
            0 <= k < raw.len() ==> types::is_lane_path(#[trigger] raw[k]) && text::trim(raw[k])
                == raw[k],
    ensures
        types::bad_path_from(raw, i) is None,
    decreases raw.len() - i,
{
    if i < raw.len() {
        types::law_normal_path_is_stable(raw[i]);
        lemma_no_bad_path(raw, i + 1);
    }
}

/// Read a record from its file form.
pub fn parse_record(record: LaneRecordFile, path: &str) -> (res: Result<LaneRecord>)
    ensures
        match res {
            Ok(parsed) => record_of(record@) == Ok::<RecordView, Seq<char>>(parsed@),
            Err(e) => record_of(record@) matches Err(message) && e@ == registry_error(
                path@,
                message,
            ),
        },
{
    let lifecycle = match LaneLifecycle::parse(record.lifecycle.as_str()) {
        Some(lifecycle) => lifecycle,
        None => {
            let message = cat3("unknown lane lifecycle '", record.lifecycle.as_str(), "'");
            return Err(Error::InvalidLaneRegistry { path: copy(path), message });
        },
    };
    let last_land = match (&record.last_land_head, &record.last_land_at) {
        (Some(head_commit), Some(at)) => match Timestamp::parse(at.as_str()) {
            Ok(at) => Some(
                LaneLandRecord {
                    head_commit: copy(head_commit.as_str()),
                    change_id: copy_opt(&record.last_land_change),
                    at,
                },
            ),
            Err(message) => {
                return Err(Error::InvalidLaneRegistry { path: copy(path), message });
            },
        },
        (None, None) => None,
        _ => {
            let message = copy("last_land_head and last_land_at must be present together");
            return Err(Error::InvalidLaneRegistry { path: copy(path), message });
        },
    };
    let name = match WorkspaceName::new(copy(record.name.as_str())) {
        Ok(name) => name,
        Err(e) => {
            return Err(Error::InvalidLaneRegistry { path: copy(path), message: e.message() });
        },
    };
    let paths = match parse_lane_paths(&record.paths) {
        Ok(paths) => paths,
        Err(e) => {
            return Err(Error::InvalidLaneRegistry { path: copy(path), message: e.message() });
        },
    };
    let created_at = match Timestamp::parse(record.created_at.as_str()) {
        Ok(t) => t,
        Err(message) => {
            return Err(Error::InvalidLaneRegistry { path: copy(path), message });
        },
    };
    let closed_at = match opt_time(&record.closed_at) {
        Ok(t) => t,
        Err(message) => {
            return Err(Error::InvalidLaneRegistry { path: copy(path), message });
        },
    };
    Ok(LaneRecord { name, paths, created_at, lifecycle, closed_at, last_land })
}

// ---------------------------------------------------------------------------
// The registry

/// The lane registry, with the file entries that could not be read.
pub struct LaneStore {
    /// Registry file.
    pub path: String,
    /// The lanes.
    pub records: Vec<LaneRecord>,
    /// Raw entries that failed validation, kept as they are so that a single
    /// bad entry is a warning and nothing is lost when the file is written.
    pub quarantined: Vec<toml::Value>,
    /// What was found wrong while loading.
    pub warnings: Vec<String>,
}

/// An entry of the registry file: the raw value, and the record read from it
/// or why there is none.
pub struct LaneEntry {
    pub value: toml::Value,
    pub decoded: std::result::Result<LaneRecordFile, String>,
}

impl LaneEntry {
    /// The record of an entry, or what is wrong with it.
    pub open spec fn outcome(self) -> std::result::Result<RecordView, Seq<char>> {
        match self.decoded {
            Err(message) => Err(message@),
            Ok(file) => record_of(file@),
        }
    }

    /// The name to report a bad entry by.
    pub open spec fn label(self) -> Seq<char> {
        match table_text(self.value, "name"@) {
            Some(name) => name,
            None => "<unnamed>"@,
        }
    }
}

/// The records of the entries that have one, in order.
pub open spec fn good_records(entries: Seq<LaneEntry>) -> Seq<RecordView>
    decreases entries.len(),
{
    if entries.len() == 0 {
        Seq::empty()
    } else {
        let front = good_records(entries.drop_last());
        match entries.last().outcome() {
            Ok(record) => front.push(record),
            Err(_) => front,
        }
    }
}

/// The raw values of the entries that have no record, in order.
pub open spec fn bad_values(entries: Seq<LaneEntry>) -> Seq<toml::Value>
    decreases entries.len(),
{
    if entries.len() == 0 {
        Seq::empty()
    } else {
        let front = bad_values(entries.drop_last());
        match entries.last().outcome() {
            Ok(_) => front,
            Err(_) => front.push(entries.last().value),
        }
    }
}

/// One warning for each entry that has no record, in order.
pub open spec fn bad_warnings(entries: Seq<LaneEntry>, path: Seq<char>) -> Seq<Seq<char>>
    decreases entries.len(),
{
    if entries.len() == 0 {
        Seq::empty()
    } else {
        let front = bad_warnings(entries.drop_last(), path);
        match entries.last().outcome() {
            Ok(_) => front,
            Err(message) => front.push(
                "skipped invalid lane record '"@ + entries.last().label() + "' in "@ + path + ": "@
                    + message,
            ),
        }
    }
}

/// An entry of the registry file as it is written: the file form of a lane, or
/// a raw value that could not be read and rides along untouched.
pub enum SavedEntry<'a> {
    Lane(LaneRecordFile),
    SetAside(&'a toml::Value),
}

/// What a registry writes: the file forms of its lanes in order, each of which
/// reads back as the lane, and then the values that were set aside.
pub open spec fn saved_matches(saved: Seq<SavedEntry>, store: LaneStore) -> bool {
    let lanes = store.records@.len();
    &&& saved.len() == lanes + store.quarantined@.len()
    &&& forall|i: int|
        0 <= i < lanes ==> (#[trigger] saved[i] matches SavedEntry::Lane(file) && {
            let record = store.records@[i]@;
            &&& file_of(record) == Ok::<FileView, Seq<char>>(file@)
            &&& plain_paths(record) ==> record_of(file@) == Ok::<RecordView, Seq<char>>(record)
        })
    &&& forall|i: int|
        lanes <= i < saved.len() ==> (#[trigger] saved[i] matches SavedEntry::SetAside(value)
            && *value == store.quarantined@[i - lanes])
}

/// The entries that reading the written file gives: each file form is decoded
/// as it was written, and each raw value is the one that was written.
pub open spec fn read_again(saved: Seq<SavedEntry>, entries: Seq<LaneEntry>) -> bool {
    &&& entries.len() == saved.len()
    &&& forall|i: int|
        0 <= i < saved.len() ==> match #[trigger] saved[i] {
            SavedEntry::Lane(file) => entries[i].decoded matches Ok(again) && again@ == file@,
            SavedEntry::SetAside(value) => entries[i].value == *value,
        }
}

/// The first position from `i` on of a record of this name.
pub open spec fn position_from(records: Seq<LaneRecord>, name: Seq<char>, i: int) -> Option<int>
    decreases records.len() - i,
{
    if i < 0 || i >= records.len() {
        None
    } else if records[i].name@ == name {
        Some(i)
    } else {
        position_from(records, name, i + 1)
    }
}

/// The first position of a record of this name.
pub open spec fn position_of(records: Seq<LaneRecord>, name: Seq<char>) -> Option<int> {
    position_from(records, name, 0)
}

/// A position that was found is one of the list, and holds the name.
pub proof fn lemma_position_in_range(records: Seq<LaneRecord>, name: Seq<char>, i: int)
    ensures
        position_from(records, name, i) matches Some(p) ==> i <= p < records.len() && 0 <= p
            && records[p].name@ == name,
    decreases records.len() - i,
{
    if 0 <= i < records.len() {
        lemma_position_in_range(records, name, i + 1);
    }
}

/// Having another name.
pub open spec fn named_otherwise(name: Seq<char>) -> spec_fn(LaneRecord) -> bool {
    |r: LaneRecord| r.name@ != name
}

/// Being an open lane.
pub open spec fn is_open() -> spec_fn(LaneRecord) -> bool {
    |r: LaneRecord| r.lifecycle == LaneLifecycle::Open
}

/// The names of a list of records.
pub open spec fn record_names(records: Seq<LaneRecord>) -> Seq<Seq<char>> {
    records.map_values(|r: LaneRecord| r.name@)
}

impl LaneStore {
    /// Everything but the records is the same.
    pub open spec fn same_surroundings(self, other: LaneStore) -> bool {
        &&& self.path == other.path
        &&& self.quarantined == other.quarantined
        &&& self.warnings == other.warnings
    }

    /// A registry without lanes.
    pub fn empty(path: String) -> (res: LaneStore)
        ensures
            res.path@ == path@,
            res.records@.len() == 0,
            res.quarantined@.len() == 0,
            res.warnings@.len() == 0,
    {
        LaneStore { path, records: Vec::new(), quarantined: Vec::new(), warnings: Vec::new() }
    }

    /// The registry that a list of file entries holds. A bad entry is set
    /// aside with a warning.
    pub fn load(path: String, entries: Vec<LaneEntry>) -> (res: LaneStore)
        ensures
            res.path@ == path@,
            record_views(res.records@) == good_records(entries@),
            res.quarantined@ == bad_values(entries@),
            text::views(res.warnings@) == bad_warnings(entries@, path@),
    {
        broadcast use text::lemma_views_push;

        let ghost all = entries@;
        let mut rest = entries;
        let mut records: Vec<LaneRecord> = Vec::new();
        let mut quarantined: Vec<toml::Value> = Vec::new();
        let mut warnings: Vec<String> = Vec::new();
        let ghost mut done: int = 0;
        assert(all.take(0) == Seq::<LaneEntry>::empty());
        assert(all.skip(0) == all);
        while rest.len() > 0
            invariant
                0 <= done <= all.len(),
                rest@ == all.skip(done),
                record_views(records@) == good_records(all.take(done)),
                quarantined@ == bad_values(all.take(done)),
                text::views(warnings@) == bad_warnings(all.take(done), path@),
            decreases rest@.len(),
        {
            let ghost known = records@;
            let entry = rest.remove(0);
            proof {
                assert(entry == all[done]);
                assert(all.take(done + 1).drop_last() == all.take(done));
                assert(all.take(done + 1).last() == entry);
            }
            let LaneEntry { value, decoded } = entry;
            let outcome: std::result::Result<LaneRecord, String> = match decoded {
                Err(message) => Err(message),
                Ok(file) => match parse_record(file, path.as_str()) {
                    Ok(record) => Ok(record),
                    Err(Error::InvalidLaneRegistry { path: _, message }) => Err(message),
                    Err(other) => Err(other.message()),
                },
            };
            match outcome {
                Ok(record) => {
                    records.push(record);
                    assert(record_views(records@) == record_views(known).push(record@));
                },
                Err(message) => {
                    let name = match entry_text(&value, "name") {
                        Some(name) => name,
                        None => copy("<unnamed>"),
                    };
                    let mut warning = cat3(
                        "skipped invalid lane record '",
                        name.as_str(),
                        "' in ",
                    );
                    warning.append(path.as_str());
                    warning.append(": ");
                    warning.append(message.as_str());
                    warnings.push(warning);
                    quarantined.push(value);
                },
            }
            proof {
                done = done + 1;
                assert(rest@ == all.skip(done));
            }
        }
        assert(all.take(done) == all);
        LaneStore { path, records, quarantined, warnings }
    }

    /// The file forms of the lanes, in order. A time that cannot be written is
    /// an error.
    pub fn to_files(&self) -> (res: Result<Vec<LaneRecordFile>>)
        ensures
            match res {
                Ok(files) => files@.len() == self.records@.len() && forall|i: int|
                    0 <= i < files@.len() ==> {
                        let record = self.records@[i]@;
                        &&& file_of(record) == Ok::<FileView, Seq<char>>((#[trigger] files@[i])@)
                        &&& plain_paths(record) ==> record_of(files@[i]@) == Ok::<
                            RecordView,
                            Seq<char>,
                        >(record)
                    },
                Err(e) => exists|i: int|
                    0 <= i < self.records@.len() && (forall|j: int|
                        0 <= j < i ==> file_of((#[trigger] self.records@[j])@) is Ok) && (file_of(
                        (#[trigger] self.records@[i])@,
                    ) matches Err(message) && e@ == registry_error(self.path@, message)),
            },
    {
        let mut out: Vec<LaneRecordFile> = Vec::new();
        let mut i: usize = 0;
        while i < self.records.len()
            invariant
                i <= self.records@.len(),
                out@.len() == i,
                forall|k: int|
                    0 <= k < i ==> {
                        let record = self.records@[k]@;
                        &&& file_of(record) == Ok::<FileView, Seq<char>>((#[trigger] out@[k])@)
                        &&& plain_paths(record) ==> record_of(out@[k]@) == Ok::<
                            RecordView,
                            Seq<char>,
                        >(record)
                    },
                forall|j: int|
                    0 <= j < i ==> file_of((#[trigger] self.records@[j])@) is Ok,
            decreases self.records@.len() - i,
        {
            match serialize_record(&self.records[i], self.path.as_str()) {
                Ok(file) => {
                    out.push(file);
                },
                Err(e) => {
                    return Err(e);
                },
            }
            i = i + 1;
        }
        Ok(out)
    }

    /// What the registry file is to hold: the lanes, and after them what could
    /// not be read. A time that cannot be written is an error.
    pub fn save(&self) -> (res: Result<Vec<SavedEntry<'_>>>)
        ensures
            match res {
                Ok(saved) => saved_matches(saved@, *self),
                Err(e) => exists|i: int|
                    0 <= i < self.records@.len() && (forall|j: int|
                        0 <= j < i ==> file_of((#[trigger] self.records@[j])@) is Ok) && (file_of(
                        (#[trigger] self.records@[i])@,
                    ) matches Err(message) && e@ == registry_error(self.path@, message)),
            },
    {
        let mut files = match self.to_files() {
            Ok(files) => files,
            Err(e) => {
                return Err(e);
            },
        };
        let ghost forms = files@;
        let mut out: Vec<SavedEntry<'_>> = Vec::new();
        let ghost mut done: int = 0;
        assert(forms.skip(0) =~= forms);
        while files.len() > 0
            invariant
                0 <= done <= forms.len(),
                files@ == forms.skip(done),
                out@.len() == done,
                forall|i: int| 0 <= i < done ==> #[trigger] out@[i] == SavedEntry::Lane(forms[i]),
            decreases files@.len(),
        {
            let file = files.remove(0);
            proof {
                assert(file == forms[done]);
                assert(files@ =~= forms.skip(done + 1));
                done = done + 1;
            }
            out.push(SavedEntry::Lane(file));
        }
        let mut j: usize = 0;
        while j < self.quarantined.len()
            invariant
                j <= self.quarantined@.len(),
                out@.len() == forms.len() + j,
                forall|i: int|
                    0 <= i < forms.len() ==> #[trigger] out@[i] == SavedEntry::Lane(forms[i]),
                forall|i: int|
                    forms.len() <= i < out@.len() ==> (#[trigger] out@[i] matches SavedEntry::SetAside(
                        value,
                    ) && *value == self.quarantined@[i - forms.len()]),
            decreases self.quarantined@.len() - j,
        {
            out.push(SavedEntry::SetAside(&self.quarantined[j]));
            j = j + 1;
        }
        Ok(out)
    }

    /// The position of the first record of this name.
    fn find(&self, name: &WorkspaceName) -> (res: Option<usize>)
        ensures
            match res {
                Some(i) => i < self.records@.len() && position_of(self.records@, name@) == Some(
                    i as int,
                ),
                None => position_of(self.records@, name@) is None,
            },
    {
        let mut i: usize = 0;
        while i < self.records.len()
            invariant
                i <= self.records@.len(),
                position_of(self.records@, name@) == position_from(self.records@, name@, i as int),
            decreases self.records@.len() - i,
        {
            if self.records[i].name.same_as(name) {
                return Some(i);
            }
            i = i + 1;
        }
        None
    }

    /// The record of this name.
    pub fn get(&self, name: &WorkspaceName) -> (res: Option<&LaneRecord>)
        ensures
            match (res, position_of(self.records@, name@)) {
                (Some(record), Some(i)) => 0 <= i < self.records@.len() && *record
                    == self.records@[i],
                (None, None) => true,
                _ => false,
            },
    {
        match self.find(name) {
            Some(i) => Some(&self.records[i]),
            None => None,
        }
    }

    /// The open lanes, in order.
    pub fn open_lanes(&self) -> (res: Vec<&LaneRecord>)
        ensures
            res@.map_values(|r: &LaneRecord| *r) == self.records@.filter(is_open()),
    {
        let ghost open = is_open();
        let mut out: Vec<&LaneRecord> = Vec::new();
        let mut i: usize = 0;
        proof {
            reveal(Seq::filter);
            assert(self.records@.take(0).filter(open) =~= Seq::<LaneRecord>::empty());
            assert(out@.map_values(|r: &LaneRecord| *r) =~= Seq::<LaneRecord>::empty());
        }
        while i < self.records.len()
            invariant
                i <= self.records@.len(),
                open == is_open(),
                out@.map_values(|r: &LaneRecord| *r) == self.records@.take(i as int).filter(open),
            decreases self.records@.len() - i,
        {
            let ghost before = out@;
            proof {
                reveal(Seq::filter);
                let front = self.records@.take(i as int);
                assert(self.records@.take(i + 1).drop_last() == front);
            }
            if self.records[i].lifecycle == LaneLifecycle::Open {
                out.push(&self.records[i]);
                assert(out@.map_values(|r: &LaneRecord| *r) =~= before.map_values(
                    |r: &LaneRecord| *r,
                ).push(self.records@[i as int]));
            }
            i = i + 1;
        }
        assert(self.records@.take(i as int) == self.records@);
        out
    }

    /// Drop every record of this name.
    pub fn remove(&mut self, name: &WorkspaceName)
        ensures
            final(self).records@ == old(self).records@.filter(named_otherwise(name@)),
            final(self).same_surroundings(*old(self)),
    {
        let ghost all = self.records@;
        let ghost keep = named_otherwise(name@);
        let mut i: usize = 0;
        proof {
            reveal(Seq::filter);
            assert(all.take(0).filter(keep) =~= Seq::<LaneRecord>::empty());
            assert(self.records@.take(0) =~= Seq::<LaneRecord>::empty());
            assert(self.records@.skip(0) == all.skip(0));
        }
        let ghost mut done: int = 0;
        while i < self.records.len()
            invariant
                i <= self.records@.len(),
                0 <= done <= all.len(),
                keep == named_otherwise(name@),
                self.same_surroundings(*old(self)),
                self.records@.take(i as int) == all.take(done).filter(keep),
                self.records@.skip(i as int) == all.skip(done),
            decreases self.records@.len() - i,
        {
            let ghost before = self.records@;
            proof {
                reveal(Seq::filter);
                assert(before.skip(i as int).len() > 0);
                assert(done < all.len());
                assert(before.skip(i as int)[0] == before[i as int]);
                assert(all.skip(done)[0] == all[done]);
                assert(all.take(done + 1).drop_last() == all.take(done));
                assert(all.skip(done + 1) == all.skip(done).skip(1));
            }
            if self.records[i].name.same_as(name) {
                let _ = self.records.remove(i);
                assert(self.records@.take(i as int) =~= before.take(i as int));
                assert(self.records@.skip(i as int) =~= before.skip(i as int).skip(1));
            } else {
                i = i + 1;
                assert(self.records@.take(i as int) =~= before.take(i - 1).push(before[i - 1]));
                assert(self.records@.skip(i as int) =~= before.skip(i - 1).skip(1));
            }
            proof {
                done = done + 1;
            }
        }
        proof {
            assert(self.records@.skip(i as int) =~= Seq::<LaneRecord>::empty());
            assert(all.skip(done).len() == 0);
            assert(all.take(done) =~= all);
            assert(self.records@.take(i as int) =~= self.records@);
        }
    }

    /// Register a lane. An open lane of the same name is an error and leaves
    /// the registry as it was; a retired lane of the same name is replaced.
    /// The lanes then stand in order of their names.
    pub fn insert(&mut self, record: LaneRecord) -> (res: Result<()>)
        ensures
            final(self).same_surroundings(*old(self)),
            match position_of(old(self).records@, record.name@) {
                Some(i) => old(self).records@[i].lifecycle == LaneLifecycle::Open,
                None => false,
            } ==> (final(self).records@ == old(self).records@ && (res matches Err(e) && e@
                == error::about(ErrorKind::LaneExists, record.name@))),
            !(match position_of(old(self).records@, record.name@) {
                Some(i) => old(self).records@[i].lifecycle == LaneLifecycle::Open,
                None => false,
            }) ==> (res is Ok && ({
                let items = old(self).records@.filter(named_otherwise(record.name@)).push(record);
                order::sorted_rising(final(self).records@, items, record_names(items))
            })),
    {
        if let Some(existing) = self.get(&record.name) {
            if existing.lifecycle == LaneLifecycle::Open {
                return Err(Error::LaneExists(copy(record.name.as_str())));
            }
        }
        self.remove(&record.name);
        let mut items: Vec<LaneRecord> = Vec::new();
        items.append(&mut self.records);
        items.push(record);
        let keys = names_of(&items);
        assert(text::views(keys@).len() == keys@.len());
        self.records = sort_rising(items, &keys);
        Ok(())
    }

    /// Move a lane to another lifecycle state; a retired lane gets its time of
    /// retirement, an open one has none.
    pub fn set_lifecycle(
        &mut self,
        name: &WorkspaceName,
        lifecycle: LaneLifecycle,
        at: Timestamp,
    ) -> (res: Result<()>)
        ensures
            final(self).same_surroundings(*old(self)),
            match position_of(old(self).records@, name@) {
                None => final(self).records@ == old(self).records@ && (res matches Err(e) && e@
                    == error::about(ErrorKind::LaneNotFound, name@)),
                Some(i) => res is Ok && record_views(final(self).records@) == record_views(
                    old(self).records@,
                ).update(
                    i,
                    RecordView {
                        lifecycle,
                        closed_at: if lifecycle == LaneLifecycle::Open {
                            None
                        } else {
                            Some(at)
                        },
                        ..old(self).records@[i]@
                    },
                ),
            },
    {
        match self.find(name) {
            None => Err(Error::LaneNotFound(copy(name.as_str()))),
            Some(i) => {
                let record = &mut self.records[i];
                record.lifecycle = lifecycle;
                record.closed_at = match lifecycle {
                    LaneLifecycle::Open => None,
                    LaneLifecycle::Closed | LaneLifecycle::Abandoned => Some(at),
                };
                Ok(())
            },
        }
    }

    /// Replace a lane's write-set.
    pub fn replace_paths(&mut self, name: &WorkspaceName, paths: Vec<LanePath>) -> (res: Result<()>)
        ensures
            final(self).same_surroundings(*old(self)),
            match position_of(old(self).records@, name@) {
                None => final(self).records@ == old(self).records@ && (res matches Err(e) && e@
                    == error::about(ErrorKind::LaneNotFound, name@)),
                Some(i) => res is Ok && record_views(final(self).records@) == record_views(
                    old(self).records@,
                ).update(
                    i,
                    RecordView { paths: types::path_views(paths@), ..old(self).records@[i]@ },
                ),
            },
    {
        match self.find(name) {
            None => Err(Error::LaneNotFound(copy(name.as_str()))),
            Some(i) => {
                let record = &mut self.records[i];
                record.paths = paths;
                Ok(())
            },
        }
    }

    /// Record that a lane landed.
    pub fn record_land(
        &mut self,
        name: &WorkspaceName,
        head_commit: &str,
        change_id: &Option<String>,
        at: Timestamp,
    ) -> (res: Result<()>)
        ensures
            final(self).same_surroundings(*old(self)),
            match position_of(old(self).records@, name@) {
                None => final(self).records@ == old(self).records@ && (res matches Err(e) && e@
                    == error::about(ErrorKind::LaneNotFound, name@)),
                Some(i) => res is Ok && record_views(final(self).records@) == record_views(
                    old(self).records@,
                ).update(
                    i,
                    RecordView {
                        last_land: Some(
                            LandView {
                                head_commit: head_commit@,
                                change_id: text::opt_view(*change_id),
                                at,
                            },
                        ),
                        ..old(self).records@[i]@
                    },
                ),
            },
    {
        match self.find(name) {
            None => Err(Error::LaneNotFound(copy(name.as_str()))),
            Some(i) => {
                let land = LaneLandRecord {
                    head_commit: copy(head_commit),
                    change_id: copy_opt(change_id),
                    at,
                };
                let record = &mut self.records[i];
                record.last_land = Some(land);
                Ok(())
            },
        }
    }
}

/// The names of a list of records.
fn names_of(records: &Vec<LaneRecord>) -> (res: Vec<String>)
    ensures
        text::views(res@) == record_names(records@),
{
    broadcast use text::lemma_views_push;

    let mut out: Vec<String> = Vec::new();
    let mut i: usize = 0;
    proof {
        text::lemma_views_empty(out@);
    }
    while i < records.len()
        invariant
            i <= records@.len(),
            text::views(out@) == record_names(records@).take(i as int),
        decreases records@.len() - i,
    {
        out.push(copy(records[i].name.as_str()));
        i = i + 1;
        assert(record_names(records@).take(i as int) == record_names(records@).take(i - 1).push(
            record_names(records@)[i - 1],
        ));
    }
    assert(record_names(records@).take(i as int) == record_names(records@));
    out
}

/// Loading loses no entry: each becomes a record, or is set aside with a
/// warning.
pub proof fn law_every_entry_is_kept(entries: Seq<LaneEntry>, path: Seq<char>)
    ensures
        good_records(entries).len() + bad_values(entries).len() == entries.len(),
        bad_warnings(entries, path).len() == bad_values(entries).len(),
    decreases entries.len(),
{
    if entries.len() > 0 {
        law_every_entry_is_kept(entries.drop_last(), path);
    }
}

/// Entries that hold the file forms of some records, as writing the registry
/// makes them, load as these records.
pub proof fn law_saved_lanes_load_back(entries: Seq<LaneEntry>, records: Seq<RecordView>)
    requires
        entries.len() == records.len(),
        forall|i: int|
            0 <= i < entries.len() ==> (#[trigger] entries[i]).outcome() == Ok::<
                RecordView,
                Seq<char>,
            >(records[i]),
    ensures
        good_records(entries) == records,
        bad_values(entries).len() == 0,
    decreases entries.len(),
{
    if entries.len() > 0 {
        let front = entries.drop_last();
        assert forall|i: int| 0 <= i < front.len() implies (#[trigger] front[i]).outcome() == Ok::<
            RecordView,
            Seq<char>,
        >(records.drop_last()[i]) by {
            assert(front[i] == entries[i]);
        }
        law_saved_lanes_load_back(front, records.drop_last());
        assert(entries.last() == entries[entries.len() - 1]);
        assert(records == records.drop_last().push(records.last()));
    } else {
        assert(records =~= Seq::<RecordView>::empty());
    }
}

/// Every value that loading sets aside is that of an entry without a record.
proof fn lemma_bad_values(entries: Seq<LaneEntry>, j: int)
    requires
        0 <= j < bad_values(entries).len(),
    ensures
        exists|i: int|
            0 <= i < entries.len() && (#[trigger] entries[i]).outcome() is Err && entries[i].value
                == bad_values(entries)[j],
    decreases entries.len(),
{
    let front = entries.drop_last();
    if j < bad_values(front).len() {
        lemma_bad_values(front, j);
        let i = choose|i: int|
            0 <= i < front.len() && (#[trigger] front[i]).outcome() is Err && front[i].value
                == bad_values(front)[j];
        assert(entries[i] == front[i]);
    } else {
        assert(entries[entries.len() - 1].outcome() is Err);
    }
}

/// Entries with a record, followed by entries without one.
proof fn lemma_good_then_bad(entries: Seq<LaneEntry>, records: Seq<RecordView>)
    requires
        records.len() <= entries.len(),
        forall|i: int|
            0 <= i < records.len() ==> (#[trigger] entries[i]).outcome() == Ok::<
                RecordView,
                Seq<char>,
            >(records[i]),
        forall|i: int|
            records.len() <= i < entries.len() ==> (#[trigger] entries[i]).outcome() is Err,
    ensures
        good_records(entries) == records,
        bad_values(entries) == entries.skip(records.len() as int).map_values(
            |e: LaneEntry| e.value,
        ),
    decreases entries.len(),
{
    let bad = entries.skip(records.len() as int).map_values(|e: LaneEntry| e.value);
    if entries.len() == records.len() {
        law_saved_lanes_load_back(entries, records);
        assert(bad_values(entries) =~= bad);
    } else {
        let front = entries.drop_last();
        assert(forall|i: int| 0 <= i < front.len() ==> front[i] == entries[i]);
        lemma_good_then_bad(front, records);
        assert(entries[entries.len() - 1].outcome() is Err);
        assert(bad =~= front.skip(records.len() as int).map_values(|e: LaneEntry| e.value).push(
            entries.last().value,
        ));
    }
}

/// A registry that was loaded, whatever was done to its lanes since, is loaded
/// back from what it writes: the same lanes in the same order, and the same
/// values set aside. `first` is what the registry was loaded from, `second` is
/// what reading the written file gives; the same value is decoded the same way
/// both times. Paths that begin or end with white space are left out, since
/// reading trims them.
pub proof fn law_saved_registry_loads_back(
    first: Seq<LaneEntry>,
    store: LaneStore,
    saved: Seq<SavedEntry>,
    second: Seq<LaneEntry>,
)
    requires
        store.quarantined@ == bad_values(first),
        forall|i: int| 0 <= i < store.records@.len() ==> plain_paths((#[trigger] store.records@[i])@),
        saved_matches(saved, store),
        read_again(saved, second),
        forall|i: int, j: int|
            0 <= i < first.len() && 0 <= j < second.len() && first[i].value == second[j].value
                ==> (#[trigger] first[i]).outcome() == (#[trigger] second[j]).outcome(),
    ensures
        good_records(second) == record_views(store.records@),
        bad_values(second) == store.quarantined@,
{
    let records = record_views(store.records@);
    let lanes = store.records@.len() as int;
    assert forall|i: int| 0 <= i < records.len() implies (#[trigger] second[i]).outcome() == Ok::<
        RecordView,
        Seq<char>,
    >(records[i]) by {
        assert(saved[i] is Lane);
        assert(plain_paths(store.records@[i]@));
        assert(records[i] == store.records@[i]@);
    }
    assert forall|i: int| lanes <= i < second.len() implies (#[trigger] second[i]).outcome() is Err
        && second[i].value == store.quarantined@[i - lanes] by {
        assert(saved[i] is SetAside);
        lemma_bad_values(first, i - lanes);
        let k = choose|k: int|
            0 <= k < first.len() && (#[trigger] first[k]).outcome() is Err && first[k].value
                == bad_values(first)[i - lanes];
        assert(first[k].outcome() == second[i].outcome());
    }
    lemma_good_then_bad(second, records);
    assert(bad_values(second) =~= store.quarantined@);
}

/// After registering a lane, it is the only record of its name, the records of
/// other names are those that were there, and the names stand in order.
pub proof fn law_insert(before: Seq<LaneRecord>, record: LaneRecord, after: Seq<LaneRecord>)
    requires
        ({
            let items = before.filter(named_otherwise(record.name@)).push(record);
            order::sorted_rising(after, items, record_names(items))
        }),
    ensures
        after.contains(record),
        forall|r: LaneRecord|
            #[trigger] after.contains(r) ==> r == record || (r.name@ != record.name@
                && before.contains(r)),
        forall|r: LaneRecord|
            before.contains(r) && r.name@ != record.name@ ==> #[trigger] after.contains(r),
        forall|i: int, j: int|
            0 <= i < j < after.len() ==> !order::text_lt(
                (#[trigger] after[j]).name@,
                (#[trigger] after[i]).name@,
            ),
{
    let keep = named_otherwise(record.name@);
    let kept = before.filter(keep);
    let items = kept.push(record);
    let keys = record_names(items);
    order::lemma_sorted_rising_items(after, items, keys);
    assert(items[kept.len() as int] == record);
    assert forall|r: LaneRecord| #[trigger] after.contains(r) implies r == record || (r.name@
        != record.name@ && before.contains(r)) by {
        assert(items.contains(r));
        let i = choose|i: int| 0 <= i < items.len() && items[i] == r;
        if i < kept.len() {
            assert(kept.contains(r));
            before.lemma_filter_contains_rev(keep, r);
            before.lemma_filter_pred(keep, i);
        }
    }
    assert forall|r: LaneRecord| before.contains(r) && r.name@ != record.name@ implies
        #[trigger] after.contains(r) by {
        let i = choose|i: int| 0 <= i < before.len() && before[i] == r;
        before.lemma_filter_contains(keep, i);
        let k = choose|k: int| 0 <= k < kept.len() && kept[k] == r;
        assert(items[k] == r);
    }
    let perm = choose|perm: Seq<int>| #[trigger]
        order::rising_positions(perm, keys) && after == perm.map_values(|p: int| items[p]);
    assert forall|i: int, j: int| 0 <= i < j < after.len() implies !order::text_lt(
        (#[trigger] after[j]).name@,
        (#[trigger] after[i]).name@,
    ) by {
        assert(order::rises(keys, perm[i], perm[j]));
        if order::text_lt(keys[perm[j]], keys[perm[i]]) {
            if order::text_lt(keys[perm[i]], keys[perm[j]]) {
                order::lemma_lt_transitive(keys[perm[i]], keys[perm[j]], keys[perm[i]]);
            }
            order::lemma_lt_irreflexive(keys[perm[i]]);
        }
    }
}

/// A lane is found by its name: the position found is that of the first record
/// of the name, and none is found exactly where no record has it.
pub proof fn law_lanes_are_found_by_name(records: Seq<LaneRecord>, name: Seq<char>)
    ensures
        match position_of(records, name) {
            Some(p) => 0 <= p < records.len() && records[p].name@ == name && forall|j: int|
                0 <= j < p ==> (#[trigger] records[j]).name@ != name,
            None => forall|j: int| 0 <= j < records.len() ==> (#[trigger] records[j]).name@ != name,
        },
{
    lemma_first_position(records, name, 0);
}

proof fn lemma_first_position(records: Seq<LaneRecord>, name: Seq<char>, i: int)
    requires
        0 <= i <= records.len(),
    ensures
        match position_from(records, name, i) {
            Some(p) => i <= p < records.len() && records[p].name@ == name && forall|j: int|
                i <= j < p ==> (#[trigger] records[j]).name@ != name,
            None => forall|j: int| i <= j < records.len() ==> (#[trigger] records[j]).name@ != name,
        },
    decreases records.len() - i,
{
    if i < records.len() {
        lemma_first_position(records, name, i + 1);
    }
}

/// Loading goes entry by entry: the entries of two files, one behind the other,
/// load as the two files do, one behind the other; and an entry becomes a record
/// or is set aside, with the record that it has or the value that it is.
pub proof fn law_entries_load_one_by_one(
    some: Seq<LaneEntry>,
    more: Seq<LaneEntry>,
    entry: LaneEntry,
    path: Seq<char>,
)
    ensures
        good_records(some + more) == good_records(some) + good_records(more),
        bad_values(some + more) == bad_values(some) + bad_values(more),
        bad_warnings(some + more, path) == bad_warnings(some, path) + bad_warnings(more, path),
        match entry.outcome() {
            Ok(record) => good_records(seq![entry]) == seq![record] && bad_values(
                seq![entry],
            ).len() == 0 && bad_warnings(seq![entry], path).len() == 0,
            Err(message) => good_records(seq![entry]).len() == 0 && bad_values(seq![entry]) == seq![
                entry.value,
            ] && bad_warnings(seq![entry], path) == seq![
                "skipped invalid lane record '"@ + (match table_text(entry.value, "name"@) {
                    Some(name) => name,
                    None => "<unnamed>"@,
                }) + "' in "@ + path + ": "@ + message,
            ],
        },
    decreases more.len(),
{
    if more.len() == 0 {
        assert(some + more =~= some);
        assert(good_records(some) + good_records(more) =~= good_records(some));
        assert(bad_values(some) + bad_values(more) =~= bad_values(some));
        assert(bad_warnings(some, path) + bad_warnings(more, path) =~= bad_warnings(some, path));
    } else {
        law_entries_load_one_by_one(some, more.drop_last(), entry, path);
        assert((some + more).drop_last() =~= some + more.drop_last());
        assert((some + more).last() == more.last());
        assert(good_records(some + more) =~= good_records(some) + good_records(more));
        assert(bad_values(some + more) =~= bad_values(some) + bad_values(more));
        assert(bad_warnings(some + more, path) =~= bad_warnings(some, path) + bad_warnings(
            more,
            path,
        ));
    }
    let one = seq![entry];
    assert(one.drop_last() =~= Seq::<LaneEntry>::empty());
    assert(one.last() == entry);
    reveal_with_fuel(good_records, 2);
    reveal_with_fuel(bad_values, 2);
    reveal_with_fuel(bad_warnings, 2);
    match entry.outcome() {
        Ok(record) => {
            assert(good_records(one) =~= seq![record]);
        },
        Err(_) => {
            assert(bad_values(one) =~= seq![entry.value]);
            assert(bad_warnings(one, path) =~= seq![bad_warnings(one, path)[0]]);
        },
    }
}

/// A record says in the file what it says in the registry: its name, paths and
/// lifecycle are written as they are, its times as their texts, and a landing
/// with its head, change and time together.
pub proof fn law_records_are_written_as_they_are(record: RecordView)
    ensures
        file_of(record) matches Ok(file) ==> {
            &&& file.name == record.name
            &&& file.paths == record.paths
            &&& LaneLifecycle::parsed(file.lifecycle) == Some(record.lifecycle)
            &&& Ok::<Seq<char>, Seq<char>>(file.created_at) == record.created_at.text()
            &&& match record.closed_at {
                Some(at) => file.closed_at matches Some(s) && Ok::<Seq<char>, Seq<char>>(s)
                    == at.text(),
                None => file.closed_at is None,
            }
            &&& match record.last_land {
                Some(land) => file.last_land_head == Some(land.head_commit) && file.last_land_change
                    == land.change_id && (file.last_land_at matches Some(s) && Ok::<
                    Seq<char>,
                    Seq<char>,
                >(s) == land.at.text()),
                None => file.last_land_head is None && file.last_land_change is None
                    && file.last_land_at is None,
            }
        },
        file_of(record) is Err <==> record.created_at.text() is Err || (
        record.closed_at matches Some(at) && at.text() is Err) || (
        record.last_land matches Some(land) && land.at.text() is Err),
{
    types::law_lifecycle_round_trip(record.lifecycle);
}

/// A file form is read exactly where all of it can be: a known lifecycle, a
/// valid name, valid paths, readable times, and a landing that is whole or not
/// there; and what is read is what it says.
pub proof fn law_records_are_read_as_they_are(file: FileView)
    ensures
        record_of(file) matches Ok(record) ==> {
            &&& record.name == file.name
            &&& record.paths == types::normal_paths(file.paths)
            &&& record.lifecycle.label_text() == file.lifecycle
            &&& Ok::<Timestamp, Seq<char>>(record.created_at) == Timestamp::of_text(file.created_at)
            &&& match file.closed_at {
                Some(s) => record.closed_at matches Some(at) && Ok::<Timestamp, Seq<char>>(at)
                    == Timestamp::of_text(s),
                None => record.closed_at is None,
            }
            &&& match (file.last_land_head, file.last_land_at) {
                (Some(head), Some(s)) => record.last_land matches Some(land) && land.head_commit
                    == head && land.change_id == file.last_land_change && Ok::<
                    Timestamp,
                    Seq<char>,
                >(land.at) == Timestamp::of_text(s),
                (None, None) => record.last_land is None,
                _ => false,
            }
        },
        record_of(file) is Ok <==> {
            &&& LaneLifecycle::parsed(file.lifecycle) is Some
            &&& types::valid_name(file.name)
            &&& forall|i: int|
                0 <= i < file.paths.len() ==> types::valid_lane_path(
                    types::normal_path(#[trigger] file.paths[i]),
                )
            &&& Timestamp::of_text(file.created_at) is Ok
            &&& file.closed_at matches Some(s) ==> Timestamp::of_text(s) is Ok
            &&& file.last_land_head is Some <==> file.last_land_at is Some
            &&& file.last_land_at matches Some(s) ==> Timestamp::of_text(s) is Ok
        },
{
    types::law_bad_path_is_the_first(file.paths);
}

/// Dropping a lane leaves every other one where it was, in its order.
pub proof fn law_only_the_named_lane_goes(records: Seq<LaneRecord>, name: Seq<char>, r: LaneRecord)
    ensures
        records.filter(named_otherwise(name)).contains(r) <==> records.contains(r) && r.name@
            != name,
        records.filter(is_open()).contains(r) <==> records.contains(r) && r.lifecycle
            == LaneLifecycle::Open,
{
    let keep = named_otherwise(name);
    if records.filter(keep).contains(r) {
        let k = choose|k: int| 0 <= k < records.filter(keep).len() && records.filter(keep)[k] == r;
        records.lemma_filter_pred(keep, k);
        records.lemma_filter_contains_rev(keep, r);
    }
    let open = is_open();
    if records.filter(open).contains(r) {
        let k = choose|k: int| 0 <= k < records.filter(open).len() && records.filter(open)[k] == r;
        records.lemma_filter_pred(open, k);
        records.lemma_filter_contains_rev(open, r);
    }
    if records.contains(r) {
        let i = choose|i: int| 0 <= i < records.len() && records[i] == r;
        if r.name@ != name {
            records.lemma_filter_contains(keep, i);
        }
        if r.lifecycle == LaneLifecycle::Open {
            records.lemma_filter_contains(open, i);
        }
    }
}

/// The open lanes are those whose record says so, all of them and no others.
pub proof fn law_open_lanes_are_all_open(records: Seq<LaneRecord>, record: LaneRecord)
    ensures
        records.filter(is_open()).contains(record) <==> records.contains(record)
            && record.lifecycle == LaneLifecycle::Open,
{
    let keep = is_open();
    let open = records.filter(keep);
    if open.contains(record) {
        let k = choose|k: int| 0 <= k < open.len() && open[k] == record;
        records.lemma_filter_pred(keep, k);
        records.lemma_filter_contains_rev(keep, record);
    }
    if records.contains(record) && record.lifecycle == LaneLifecycle::Open {
        let i = choose|i: int| 0 <= i < records.len() && records[i] == record;
        records.lemma_filter_contains(keep, i);
    }
}

} // verus!
