//! What navi remembers of a repo between runs: the workspace that the last
//! switch left, and how much divergence was last seen.

use vstd::prelude::*;

use crate::config::{self, repo_state_path};
use crate::error::{self, Error, ErrorKind, Result};
use crate::text::{self, char_count, copy};
use crate::types::{self, WorkspaceName};

verus! {

/// The state of a repo.
#[derive(Debug, PartialEq, Eq)]
pub struct RepoStateStore {
    /// The file that holds the state.
    pub path: String,
    previous: Option<WorkspaceName>,
    baseline: Option<usize>,
}

/// The state as its file holds it.
#[derive(Debug, PartialEq, Eq)]
pub struct RepoStateFile {
    /// Name of the workspace that the last switch left.
    pub previous_workspace: Option<String>,
    /// Last observed count of divergent changes; the tripwire warns when the
    /// live count exceeds this.
    pub divergent_baseline: Option<usize>,
}

/// The state as mathematical values.
pub struct StateView {
    pub path: Seq<char>,
    pub previous: Option<Seq<char>>,
    pub baseline: Option<usize>,
}

/// The text of an optional name.
pub open spec fn opt_name(name: Option<WorkspaceName>) -> Option<Seq<char>> {
    match name {
        Some(name) => Some(name@),
        None => None,
    }
}

impl View for RepoStateStore {
    type V = StateView;

    closed spec fn view(&self) -> StateView {
        StateView { path: self.path@, previous: opt_name(self.previous), baseline: self.baseline }
    }
}

/// The name that a state file gives, where an empty text stands for none.
pub open spec fn stored_name(value: Option<Seq<char>>) -> Option<Seq<char>> {
    match value {
        Some(name) => if name.len() == 0 {
            None
        } else {
            Some(name)
        },
        None => None,
    }
}

/// The state that a file at `path` holds.
pub open spec fn loaded_state(path: Seq<char>, file: RepoStateFile) -> std::result::Result<
    StateView,
    error::ErrorView,
> {
    let state = StateView {
        path,
        previous: stored_name(text::opt_view(file.previous_workspace)),
        baseline: file.divergent_baseline,
    };
    match state.previous {
        Some(name) => if types::valid_name(name) {
            Ok(state)
        } else {
            Err(
                error::about2(
                    ErrorKind::InvalidRepoState,
                    path,
                    error::about(ErrorKind::InvalidWorkspaceName, name).message(),
                ),
            )
        },
        None => Ok(state),
    }
}

/// Read the name in a state file: an empty text stands for none, and a text
/// that is no valid name makes the file invalid.
pub fn parse_workspace_name(value: Option<String>, path: &str) -> (res: Result<
    Option<WorkspaceName>,
>)
    ensures
        match stored_name(text::opt_view(value)) {
            None => res matches Ok(name) && name is None,
            Some(name) => if types::valid_name(name) {
                res matches Ok(found) && opt_name(found) == Some(name)
            } else {
                res matches Err(e) && e@ == error::about2(
                    ErrorKind::InvalidRepoState,
                    path@,
                    error::about(ErrorKind::InvalidWorkspaceName, name).message(),
                )
            },
        },
{
    match value {
        None => Ok(None),
        Some(name) => {
            let length: usize = char_count(name.as_str());
            if length == 0 {
                return Ok(None);
            }
            match WorkspaceName::new(name) {
                Ok(name) => Ok(Some(name)),
                Err(e) => Err(Error::InvalidRepoState { path: copy(path), message: e.message() }),
            }
        },
    }
}

impl RepoStateStore {
    /// The state of a repo of which nothing is remembered.
    pub fn empty(repo_storage_path: &str) -> (res: RepoStateStore)
        ensures
            res@ == (StateView {
                path: config::navi_file(repo_storage_path@, "state.toml"@),
                previous: None,
                baseline: None,
            }),
    {
        RepoStateStore { path: repo_state_path(repo_storage_path), previous: None, baseline: None }
    }

    /// The state that a file holds.
    pub fn load(repo_storage_path: &str, file: RepoStateFile) -> (res: Result<RepoStateStore>)
        ensures
            match loaded_state(config::navi_file(repo_storage_path@, "state.toml"@), file) {
                Ok(state) => res matches Ok(store) && store@ == state,
                Err(view) => res matches Err(e) && e@ == view,
            },
    {
        let path = repo_state_path(repo_storage_path);
        match parse_workspace_name(file.previous_workspace, path.as_str()) {
            Ok(previous) => Ok(RepoStateStore { path, previous, baseline: file.divergent_baseline }),
            Err(e) => Err(e),
        }
    }

    /// The workspace that the last switch left.
    pub fn previous_workspace(&self) -> (res: Option<&WorkspaceName>)
        ensures
            match res {
                Some(name) => self@.previous == Some(name@),
                None => self@.previous is None,
            },
    {
        match &self.previous {
            Some(name) => Some(name),
            None => None,
        }
    }

    /// The count of divergent changes last seen.
    pub fn divergent_baseline(&self) -> (res: Option<usize>)
        ensures
            res == self@.baseline,
    {
        self.baseline
    }

    /// Remember a count of divergent changes.
    pub fn set_divergent_baseline(&mut self, count: usize)
        ensures
            final(self)@ == (StateView { baseline: Some(count), ..old(self)@ }),
    {
        self.baseline = Some(count);
    }

    /// Remember the workspace that a switch leaves. A state that could not be
    /// loaded is replaced by a fresh one.
    pub fn save_previous_workspace(
        loaded: Result<RepoStateStore>,
        repo_storage_path: &str,
        workspace: &WorkspaceName,
    ) -> (res: RepoStateStore)
        ensures
            match loaded {
                Ok(store) => res@ == (StateView { previous: Some(workspace@), ..store@ }),
                Err(_) => res@ == (StateView {
                    path: config::navi_file(repo_storage_path@, "state.toml"@),
                    previous: Some(workspace@),
                    baseline: None,
                }),
            },
    {
        let mut store = match loaded {
            Ok(store) => store,
            Err(_) => RepoStateStore::empty(repo_storage_path),
        };
        store.previous = Some(workspace.clone());
        store
    }

    /// What the file of this state holds.
    pub fn to_file(&self) -> (res: RepoStateFile)
        ensures
            text::opt_view(res.previous_workspace) == self@.previous,
            res.divergent_baseline == self@.baseline,
            self@.previous matches Some(name) ==> types::valid_name(name),
    {
        let previous_workspace = match &self.previous {
            Some(name) => Some(copy(name.as_str())),
            None => None,
        };
        RepoStateFile { previous_workspace, divergent_baseline: self.baseline }
    }

    /// Compare the live count of divergent changes with the last one, and
    /// remember it. The result is by how much it has grown, if it has.
    pub fn tripwire(&mut self, count: usize) -> (res: Option<usize>)
        ensures
            final(self)@ == (StateView { baseline: Some(count), ..old(self)@ }),
            match old(self)@.baseline {
                Some(baseline) => if count > baseline {
                    res == Some((count - baseline) as usize)
                } else {
                    res is None
                },
                None => res is None,
            },
    {
        let grown = match self.baseline {
            Some(baseline) => {
                if count > baseline {
                    Some(count - baseline)
                } else {
                    None
                }
            },
            None => None,
        };
        self.set_divergent_baseline(count);
        grown
    }
}

/// A state that was saved loads back as it was.
pub proof fn law_saved_state_loads_back(state: StateView, file: RepoStateFile)
    requires
        state.previous matches Some(name) ==> types::valid_name(name),
        text::opt_view(file.previous_workspace) == state.previous,
        file.divergent_baseline == state.baseline,
    ensures
        loaded_state(state.path, file) == Ok::<StateView, error::ErrorView>(state),
{
}

/// What a state file names is remembered as it stands; an empty name is none,
/// and a file with any other name that is no name is refused.
pub proof fn law_state_is_read_as_it_is(path: Seq<char>, file: RepoStateFile)
    ensures
        loaded_state(path, file) is Err <==> (file.previous_workspace matches Some(name)
            && name@.len() > 0 && !types::valid_name(name@)),
        loaded_state(path, file) matches Ok(state) ==> {
            &&& state.path == path
            &&& state.baseline == file.divergent_baseline
            &&& file.previous_workspace matches Some(name) ==> (if name@.len() > 0 {
                state.previous == Some(name@)
            } else {
                state.previous is None
            })
            &&& file.previous_workspace is None ==> state.previous is None
        },
        loaded_state(path, file) matches Err(e) ==> e.kind == ErrorKind::InvalidRepoState
            && e.args.len() > 0 && e.args[0] == path,
{
}

} // verus!
