//! Switching between workspaces: the names that stand for one, and what a
//! switch does where the workspace is or is not there.

use vstd::prelude::*;

use crate::error::{self, Error, ErrorKind, Result};
use crate::text::{self, copy, copy_opt, same};
use crate::types::{self, WorkspaceName};

verus! {

/// The target stands for a workspace and is no name of one: `^` is the primary
/// workspace, `@` the current one and `-` the previous one.
pub open spec fn is_alias(target: Seq<char>) -> bool {
    target == "^"@ || target == "@"@ || target == "-"@
}

/// What the aliases stand for.
pub struct AliasFacts {
    /// The current workspace.
    pub current: WorkspaceName,
    /// The workspace that the last switch left, where one is remembered.
    pub previous: Option<WorkspaceName>,
    /// Whether the previous workspace is still there.
    pub previous_exists: bool,
    /// The primary workspace, where it can be told.
    pub primary: Option<WorkspaceName>,
}

/// The workspace that a target names.
pub open spec fn aliased(target: Seq<char>, facts: AliasFacts) -> std::result::Result<
    Seq<char>,
    error::ErrorView,
> {
    if target == "^"@ {
        match facts.primary {
            Some(primary) => Ok(primary@),
            None => Err(error::plain(ErrorKind::PrimaryWorkspaceUnavailable)),
        }
    } else if target == "@"@ {
        Ok(facts.current@)
    } else if target == "-"@ {
        match facts.previous {
            None => Err(error::plain(ErrorKind::NoPreviousWorkspace)),
            Some(previous) => if facts.previous_exists {
                Ok(previous@)
            } else {
                Err(error::about(ErrorKind::PreviousWorkspaceNotFound, previous@))
            },
        }
    } else if types::valid_name(target) {
        Ok(target)
    } else {
        Err(error::about(ErrorKind::InvalidWorkspaceName, target))
    }
}

fn stands_for_another(target: &str) -> (res: bool)
    ensures
        res == is_alias(target@),
{
    same(target, "^") || same(target, "@") || same(target, "-")
}

/// The workspace that a target names.
pub fn resolve_workspace_alias(target: &str, facts: &AliasFacts) -> (res: Result<WorkspaceName>)
    ensures
        match aliased(target@, *facts) {
            Ok(name) => res matches Ok(found) && found@ == name,
            Err(view) => res matches Err(e) && e@ == view,
        },
{
    if same(target, "^") {
        match &facts.primary {
            Some(primary) => Ok(primary.clone()),
            None => Err(Error::PrimaryWorkspaceUnavailable),
        }
    } else if same(target, "@") {
        Ok(facts.current.clone())
    } else if same(target, "-") {
        match &facts.previous {
            None => Err(Error::NoPreviousWorkspace),
            Some(previous) => {
                if facts.previous_exists {
                    Ok(previous.clone())
                } else {
                    Err(Error::PreviousWorkspaceNotFound(copy(previous.as_str())))
                }
            },
        }
    } else {
        WorkspaceName::new(copy(target))
    }
}

/// What a switch does.
#[derive(Debug, PartialEq, Eq)]
pub enum SwitchStep {
    /// Enter the workspace.
    Enter,
    /// Create the workspace, on the given revision where there is one, and
    /// enter it.
    Create(Option<String>),
}

/// What a switch to `target` does. A workspace is created on request only, a
/// revision is for a workspace that is created, and an alias stands for a
/// workspace that is there.
pub fn switch_step(target: &str, exists_already: bool, create: bool, revision: &Option<String>) -> (res:
    Result<SwitchStep>)
    ensures
        if is_alias(target@) && (create || revision is Some) {
            res matches Err(e) && e@ == error::about(ErrorKind::ReservedSwitchTarget, target@)
        } else if exists_already && revision is Some {
            res matches Err(e) && e@ == error::about(
                ErrorKind::WorkspaceExistsWithRevision,
                target@,
            )
        } else if exists_already {
            res == Ok::<SwitchStep, Error>(SwitchStep::Enter)
        } else if create {
            res matches Ok(SwitchStep::Create(base)) && text::opt_view(base) == text::opt_view(
                *revision,
            )
        } else {
            res matches Err(e) && e@ == error::plain(ErrorKind::WorkspaceDoesNotExist)
        },
{
    if stands_for_another(target) && (create || revision.is_some()) {
        return Err(Error::ReservedSwitchTarget(copy(target)));
    }
    if exists_already {
        if revision.is_some() {
            return Err(Error::WorkspaceExistsWithRevision { workspace: copy(target) });
        }
        return Ok(SwitchStep::Enter);
    }
    if create {
        Ok(SwitchStep::Create(copy_opt(revision)))
    } else {
        Err(Error::WorkspaceDoesNotExist)
    }
}

/// `^` is the primary workspace, `@` the current one and `-` the one that the
/// last switch left, if that is still there; any other target is the workspace
/// of that name.
pub proof fn law_aliases_stand_for_workspaces(target: Seq<char>, facts: AliasFacts)
    ensures
        aliased("@"@, facts) == Ok::<Seq<char>, error::ErrorView>(facts.current@),
        facts.primary matches Some(primary) ==> aliased("^"@, facts) == Ok::<
            Seq<char>,
            error::ErrorView,
        >(primary@),
        facts.primary is None ==> (aliased("^"@, facts) matches Err(e) && e.kind
            == ErrorKind::PrimaryWorkspaceUnavailable),
        facts.previous matches Some(previous) ==> (if facts.previous_exists {
            aliased("-"@, facts) == Ok::<Seq<char>, error::ErrorView>(previous@)
        } else {
            aliased("-"@, facts) matches Err(e) && e.kind == ErrorKind::PreviousWorkspaceNotFound
                && e.args == seq![previous@]
        }),
        facts.previous is None ==> (aliased("-"@, facts) matches Err(e) && e.kind
            == ErrorKind::NoPreviousWorkspace),
        target != "@"@ && target != "^"@ && target != "-"@ ==> !is_alias(target) && (
        if types::valid_name(target) {
            aliased(target, facts) == Ok::<Seq<char>, error::ErrorView>(target)
        } else {
            aliased(target, facts) matches Err(e) && e.kind == ErrorKind::InvalidWorkspaceName
                && e.args == seq![target]
        }),
        is_alias("@"@) && is_alias("^"@) && is_alias("-"@),
{
    reveal_strlit("@");
    reveal_strlit("^");
    reveal_strlit("-");
    assert("@"@[0] == '@' && "^"@[0] == '^' && "-"@[0] == '-');
}

} // verus!
