//! When a worktree and its branch may be removed, and what is left where they may not.

use super::registry::{
    holds_reservation, managed_worktree_for_cwd, release_reservation, same_worktree, unregister,
    ManagedWorktree, WorktreeRegistry, WorktreeReservation,
};
use super::worktree::{
    command_error, git_stdout, git_succeeded, printed_text, quote, CommandOutput, Failure,
    Repository, ResolvedPaths,
};
use crate::paths::join_path;
use crate::strings::{append_text, chars_of, join_texts, lines_of, same_text};
use vstd::prelude::*;

verus! {

/// What marks a worktree as one that was made for a session.
#[derive(Debug)]
pub struct WorktreeIdentity {
    pub identity: String,
    pub source_repository: String,
    pub common_git_dir: String,
    pub branch: String,
}

/// What marks the worktree of a reservation.
pub fn identity_marker(reservation: &WorktreeReservation) -> (marker: WorktreeIdentity)
    ensures
        marker.identity@ == reservation.identity@,
        marker.source_repository@ == reservation.source_repository@,
        marker.common_git_dir@ == reservation.common_git_dir@,
        marker.branch@ == reservation.branch@,
{
    WorktreeIdentity {
        identity: reservation.identity.clone(),
        source_repository: reservation.source_repository.clone(),
        common_git_dir: reservation.common_git_dir.clone(),
        branch: reservation.branch.clone(),
    }
}

/// Where the mark of a worktree lies: in its own Git directory.
pub fn worktree_identity_path(git_dir: &str, windows: bool) -> (path: String)
    ensures
        path@ == crate::paths::joined(git_dir@, "cst-worktree.json"@, windows),
{
    join_path(git_dir, "cst-worktree.json", windows)
}

/// What was seen of the mark of a worktree.
pub enum MarkerFacts {
    /// The worktree's Git directory could not be found.
    Unlocated(Failure),
    /// There is no mark at its place, or it cannot be read.
    Unavailable { path: String, cause: Failure },
    /// What is there is no mark.
    Invalid { path: String, cause: Failure },
    Read(WorktreeIdentity),
}

/// What was seen of a worktree: its repository, its mark, the branch it is on, its commit, and the
/// commit of the branch it should be on.
pub struct IdentityFacts {
    pub repository: Result<Repository, Failure>,
    pub marker: MarkerFacts,
    pub current_branch: Result<CommandOutput, Failure>,
    pub head: Result<CommandOutput, Failure>,
    pub tip: Result<CommandOutput, Failure>,
}

/// What a worktree should be.
pub struct ExpectedIdentity {
    pub source_repository: String,
    pub common_git_dir: String,
    pub branch: String,
    pub identity: String,
}

/// The commit of a branch, by what Git said of it. Git ends with 1 where there is no such branch.
pub open spec fn tip_of(branch: Seq<char>, outcome: Result<CommandOutput, Failure>) -> Result<
    Option<Seq<char>>,
    Seq<Seq<char>>,
> {
    match outcome {
        Err(failure) => Err(failure@),
        Ok(output) => if output.success {
            Ok(Some(super::worktree::printed(output.stdout@)))
        } else if output.code == Some(1i32) {
            Ok(None)
        } else {
            Err(
                seq![
                    super::worktree::quoted("Failed to resolve branch '"@, branch, "': "@)
                        + super::worktree::complaint(output),
                ],
            )
        },
    }
}

/// The commit of a branch.
pub fn branch_tip(branch: &str, outcome: &Result<CommandOutput, Failure>) -> (r: Result<
    Option<String>,
    Failure,
>)
    ensures
        match r {
            Ok(tip) => tip_of(branch@, *outcome) == Ok::<Option<Seq<char>>, Seq<Seq<char>>>(
                crate::session::process::text_view(tip),
            ),
            Err(failure) => tip_of(branch@, *outcome) == Err::<Option<Seq<char>>, Seq<Seq<char>>>(
                failure@,
            ),
        },
{
    match outcome {
        Err(failure) => Err(failure.clone()),
        Ok(output) => {
            if output.success {
                return Ok(Some(printed_text(&output.stdout)));
            }
            let absent = match output.code {
                Some(code) => code == 1,
                None => false,
            };
            if absent {
                return Ok(None);
            }
            let mut message = quote("Failed to resolve branch '", branch, "': ");
            append_text(&mut message, command_error(output).as_str());
            Err(Failure::of(message))
        },
    }
}

/// Why the mark of a worktree does not show it to be the one it should be.
pub open spec fn marker_refusal(marker: MarkerFacts, expected: ExpectedIdentity) -> Option<
    Seq<Seq<char>>,
> {
    match marker {
        MarkerFacts::Unlocated(cause) => Some(
            seq!["Failed to resolve worktree Git directory"@] + cause@,
        ),
        MarkerFacts::Unavailable { path, cause } => Some(
            seq![
                "Refusing removal because the worktree identity marker is unavailable: "@ + path@,
            ] + cause@,
        ),
        MarkerFacts::Invalid { path, cause } => Some(
            seq!["Refusing removal because the worktree identity marker is invalid: "@ + path@]
                + cause@,
        ),
        MarkerFacts::Read(mark) => if mark.identity@ == expected.identity@
            && mark.source_repository@ == expected.source_repository@ && mark.common_git_dir@
            == expected.common_git_dir@ && mark.branch@ == expected.branch@ {
            None
        } else {
            Some(seq!["Refusing removal because the durable worktree identity changed"@])
        },
    }
}

/// The commit of a worktree that is the one it should be: of its repository, with its mark, on its
/// branch, and nowhere but where the branch is.
pub open spec fn identified(
    expected: ExpectedIdentity,
    seen: IdentityFacts,
    paths: ResolvedPaths,
) -> Result<Seq<char>, Seq<Seq<char>>> {
    match seen.repository {
        Err(failure) => Err(
            seq![
                "Refusing removal because the registered path is not the expected worktree"@,
            ] + failure@,
        ),
        Ok(repository) => if paths.key(repository.main_worktree@) != paths.key(
            expected.source_repository@,
        ) || paths.key(repository.common_git_dir@) != paths.key(expected.common_git_dir@) {
            Err(seq!["Refusing removal because the worktree repository identity changed"@])
        } else {
            match marker_refusal(seen.marker, expected) {
                Some(failure) => Err(failure),
                None => branch_identified(expected.branch@, seen),
            }
        },
    }
}

/// The commit of a worktree that is on its branch.
pub open spec fn branch_identified(branch: Seq<char>, seen: IdentityFacts) -> Result<
    Seq<char>,
    Seq<Seq<char>>,
> {
    match super::worktree::git_text(seen.current_branch) {
        Err(failure) => Err(
            seq![
                "Refusing removal because the worktree is detached or its branch is unavailable"@,
            ] + failure,
        ),
        Ok(current) => if current != branch {
            Err(
                seq![
                    super::worktree::quoted(
                        "Refusing removal because the worktree branch changed from '"@,
                        branch,
                        "' to '"@,
                    ) + current + "'"@,
                ],
            )
        } else {
            match super::worktree::git_text(seen.head) {
                Err(failure) => Err(failure),
                Ok(head) => match tip_of(branch, seen.tip) {
                    Err(failure) => Err(failure),
                    Ok(None) => Err(
                        seq![
                            "Refusing removal because the registered branch no longer exists"@,
                        ],
                    ),
                    Ok(Some(tip)) => if head != tip {
                        Err(
                            seq![
                                "Refusing removal because the worktree HEAD and registered branch differ"@,
                            ],
                        )
                    } else {
                        Ok(head)
                    },
                },
            }
        },
    }
}

fn check_marker(marker: &MarkerFacts, expected: &ExpectedIdentity) -> (r: Result<(), Failure>)
    ensures
        match r {
            Ok(_) => marker_refusal(*marker, *expected) is None,
            Err(failure) => marker_refusal(*marker, *expected) == Some(failure@),
        },
{
    match marker {
        MarkerFacts::Unlocated(cause) => Err(
            cause.clone().context("Failed to resolve worktree Git directory".to_owned()),
        ),
        MarkerFacts::Unavailable { path, cause } => {
            let text = quote(
                "Refusing removal because the worktree identity marker is unavailable: ",
                path.as_str(),
                "",
            );
            proof {
                reveal_strlit("");
                assert(text@ =~= "Refusing removal because the worktree identity marker is unavailable: "@
                    + path@);
            }
            Err(cause.clone().context(text))
        },
        MarkerFacts::Invalid { path, cause } => {
            let text = quote(
                "Refusing removal because the worktree identity marker is invalid: ",
                path.as_str(),
                "",
            );
            proof {
                reveal_strlit("");
                assert(text@ =~= "Refusing removal because the worktree identity marker is invalid: "@
                    + path@);
            }
            Err(cause.clone().context(text))
        },
        MarkerFacts::Read(mark) => {
            if same_text(mark.identity.as_str(), expected.identity.as_str()) && same_text(
                mark.source_repository.as_str(),
                expected.source_repository.as_str(),
            ) && same_text(
                mark.common_git_dir.as_str(),
                expected.common_git_dir.as_str(),
            ) && same_text(mark.branch.as_str(), expected.branch.as_str()) {
                Ok(())
            } else {
                Err(
                    Failure::of(
                        "Refusing removal because the durable worktree identity changed".to_owned(),
                    ),
                )
            }
        },
    }
}

fn check_branch(branch: &str, seen: &IdentityFacts) -> (r: Result<String, Failure>)
    ensures
        super::worktree::text_outcome(r) == branch_identified(branch@, *seen),
{
    let current = match git_stdout(&seen.current_branch) {
        Ok(current) => current,
        Err(failure) => return Err(
            failure.context(
                "Refusing removal because the worktree is detached or its branch is unavailable".to_owned(),
            ),
        ),
    };
    if !same_text(current.as_str(), branch) {
        let mut message = quote(
            "Refusing removal because the worktree branch changed from '",
            branch,
            "' to '",
        );
        append_text(&mut message, current.as_str());
        append_text(&mut message, "'");
        return Err(Failure::of(message));
    }
    let head = match git_stdout(&seen.head) {
        Ok(head) => head,
        Err(failure) => return Err(failure),
    };
    match branch_tip(branch, &seen.tip) {
        Err(failure) => Err(failure),
        Ok(None) => Err(
            Failure::of(
                "Refusing removal because the registered branch no longer exists".to_owned(),
            ),
        ),
        Ok(Some(tip)) => {
            if same_text(head.as_str(), tip.as_str()) {
                Ok(head)
            } else {
                Err(
                    Failure::of(
                        "Refusing removal because the worktree HEAD and registered branch differ".to_owned(),
                    ),
                )
            }
        },
    }
}

/// The commit of a worktree, where it is the one it should be.
pub fn validate_worktree_identity(
    expected: &ExpectedIdentity,
    seen: &IdentityFacts,
    paths: &ResolvedPaths,
) -> (r: Result<String, Failure>)
    ensures
        super::worktree::text_outcome(r) == identified(*expected, *seen, *paths),
{
    let repository = match &seen.repository {
        Ok(repository) => repository,
        Err(failure) => return Err(
            failure.clone().context(
                "Refusing removal because the registered path is not the expected worktree".to_owned(),
            ),
        ),
    };
    let main = paths.path_key(repository.main_worktree.as_str());
    let source = paths.path_key(expected.source_repository.as_str());
    let common = paths.path_key(repository.common_git_dir.as_str());
    let shared = paths.path_key(expected.common_git_dir.as_str());
    if !same_text(main.as_str(), source.as_str()) || !same_text(common.as_str(), shared.as_str()) {
        return Err(
            Failure::of(
                "Refusing removal because the worktree repository identity changed".to_owned(),
            ),
        );
    }
    match check_marker(&seen.marker, expected) {
        Ok(_) => {},
        Err(failure) => return Err(failure),
    }
    check_branch(expected.branch.as_str(), seen)
}

/// What a registered worktree should be.
pub fn expected_of_entry(entry: &ManagedWorktree) -> (expected: ExpectedIdentity)
    ensures
        expected.source_repository@ == entry.source_repository@,
        expected.common_git_dir@ == entry.common_git_dir@,
        expected.branch@ == entry.branch@,
        expected.identity@ == entry.identity@,
{
    ExpectedIdentity {
        source_repository: entry.source_repository.clone(),
        common_git_dir: entry.common_git_dir.clone(),
        branch: entry.branch.clone(),
        identity: entry.identity.clone(),
    }
}

/// What a reserved worktree should be.
pub fn expected_of_reservation(reservation: &WorktreeReservation) -> (expected: ExpectedIdentity)
    ensures
        expected.source_repository@ == reservation.source_repository@,
        expected.common_git_dir@ == reservation.common_git_dir@,
        expected.branch@ == reservation.branch@,
        expected.identity@ == reservation.identity@,
{
    ExpectedIdentity {
        source_repository: reservation.source_repository.clone(),
        common_git_dir: reservation.common_git_dir.clone(),
        branch: reservation.branch.clone(),
        identity: reservation.identity.clone(),
    }
}

/// What became of a branch.
#[derive(Debug)]
pub enum BranchCleanup {
    Removed,
    Missing,
    /// It was kept, for this reason.
    Preserved(String),
}

/// What is to be done about a branch.
#[derive(Debug)]
pub enum BranchPlan {
    /// Nothing: this is what becomes of it.
    Settled(BranchCleanup),
    /// It is deleted, so long as it is still at the commit it should be at: this is how Git is told.
    Delete(Vec<String>),
}

/// What is to be done about a branch, by views.
pub enum BranchPlanModel {
    Missing,
    Preserved(Seq<char>),
    Delete(Seq<Seq<char>>),
}

/// A plan by its views.
pub open spec fn branch_plan_view(plan: BranchPlan) -> Option<BranchPlanModel> {
    match plan {
        BranchPlan::Settled(BranchCleanup::Missing) => Some(BranchPlanModel::Missing),
        BranchPlan::Settled(BranchCleanup::Preserved(reason)) => Some(
            BranchPlanModel::Preserved(reason@),
        ),
        BranchPlan::Delete(args) => Some(
            BranchPlanModel::Delete(crate::strings::text_views(args@)),
        ),
        BranchPlan::Settled(BranchCleanup::Removed) => None,
    }
}

/// Whether a branch is checked out in a worktree.
pub open spec fn checked_out(lines: Seq<Seq<char>>, branch: Seq<char>) -> bool {
    lines.contains("branch refs/heads/"@ + branch)
}

/// How Git is told to delete a branch that is at a commit. It refuses where the branch has moved.
pub open spec fn deletion_arguments(branch: Seq<char>, expected: Seq<char>) -> Seq<Seq<char>> {
    seq!["update-ref"@, "-d"@, "refs/heads/"@ + branch, expected]
}

/// How Git is told to delete a branch that is at a commit.
pub fn branch_deletion_args(branch: &str, expected: &str) -> (args: Vec<String>)
    ensures
        crate::strings::text_views(args@) == deletion_arguments(branch@, expected@),
{
    let mut reference = "refs/heads/".to_owned();
    append_text(&mut reference, branch);
    let mut args: Vec<String> = Vec::new();
    args.push("update-ref".to_owned());
    args.push("-d".to_owned());
    args.push(reference);
    args.push(expected.to_owned());
    assert(crate::strings::text_views(args@) =~= deletion_arguments(branch@, expected@));
    args
}

/// What is to be done about a branch that should be at a commit. It goes only where it is there, and
/// no worktree is on it; and, where that is asked for, only where the repository holds all its
/// commits. `tip`, `listing` and `merged` are what Git said of its commit, of the worktrees, and of
/// whether its commits are in the repository.
pub open spec fn branch_plan(
    branch: Seq<char>,
    expected: Seq<char>,
    require_merged: bool,
    tip: Result<CommandOutput, Failure>,
    listing: Result<CommandOutput, Failure>,
    merged: Result<CommandOutput, Failure>,
) -> Result<BranchPlanModel, Seq<Seq<char>>> {
    match tip_of(branch, tip) {
        Err(failure) => Err(failure),
        Ok(None) => Ok(BranchPlanModel::Missing),
        Ok(Some(actual)) => if actual != expected {
            Ok(
                BranchPlanModel::Preserved(
                    "branch tip changed from the expected commit "@ + expected,
                ),
            )
        } else {
            match super::worktree::git_text(listing) {
                Err(failure) => Err(failure),
                Ok(text) => if checked_out(crate::strings::lines(text), branch) {
                    Ok(BranchPlanModel::Preserved("branch is checked out by another worktree"@))
                } else if !require_merged {
                    Ok(BranchPlanModel::Delete(deletion_arguments(branch, expected)))
                } else {
                    match merged {
                        Err(failure) => Err(failure@),
                        Ok(output) => if output.success {
                            Ok(BranchPlanModel::Delete(deletion_arguments(branch, expected)))
                        } else if output.code == Some(1i32) {
                            Ok(
                                BranchPlanModel::Preserved(
                                    "branch contains commits not merged into the source repository HEAD"@,
                                ),
                            )
                        } else {
                            Err(
                                seq![
                                    super::worktree::quoted(
                                        "Failed to determine whether branch '"@,
                                        branch,
                                        "' is merged: "@,
                                    ) + super::worktree::complaint(output),
                                ],
                            )
                        },
                    }
                },
            }
        },
    }
}

fn is_checked_out(listing: &str, branch: &str) -> (r: bool)
    ensures
        r == checked_out(crate::strings::lines(listing@), branch@),
{
    let lines = lines_of(&chars_of(listing));
    let mut wanted = "branch refs/heads/".to_owned();
    append_text(&mut wanted, branch);
    super::registry::is_among(&lines, wanted.as_str())
}

/// Decides what is to be done about a branch.
pub fn delete_branch_if_owned(
    branch: &str,
    expected: &str,
    require_merged: bool,
    tip: &Result<CommandOutput, Failure>,
    listing: &Result<CommandOutput, Failure>,
    merged: &Result<CommandOutput, Failure>,
) -> (r: Result<BranchPlan, Failure>)
    ensures
        match r {
            Ok(plan) => branch_plan_view(plan) is Some && branch_plan(
                branch@,
                expected@,
                require_merged,
                *tip,
                *listing,
                *merged,
            ) == Ok::<BranchPlanModel, Seq<Seq<char>>>(branch_plan_view(plan)->0),
            Err(failure) => branch_plan(
                branch@,
                expected@,
                require_merged,
                *tip,
                *listing,
                *merged,
            ) == Err::<BranchPlanModel, Seq<Seq<char>>>(failure@),
        },
{
    let actual = match branch_tip(branch, tip) {
        Err(failure) => return Err(failure),
        Ok(None) => return Ok(BranchPlan::Settled(BranchCleanup::Missing)),
        Ok(Some(actual)) => actual,
    };
    if !same_text(actual.as_str(), expected) {
        let mut reason = "branch tip changed from the expected commit ".to_owned();
        append_text(&mut reason, expected);
        return Ok(BranchPlan::Settled(BranchCleanup::Preserved(reason)));
    }
    let text = match git_stdout(listing) {
        Err(failure) => return Err(failure),
        Ok(text) => text,
    };
    if is_checked_out(text.as_str(), branch) {
        return Ok(
            BranchPlan::Settled(
                BranchCleanup::Preserved(
                    "branch is checked out by another worktree".to_owned(),
                ),
            ),
        );
    }
    if require_merged {
        match merged {
            Err(failure) => return Err(failure.clone()),
            Ok(output) => {
                if !output.success {
                    let unmerged = match output.code {
                        Some(code) => code == 1,
                        None => false,
                    };
                    if unmerged {
                        return Ok(
                            BranchPlan::Settled(
                                BranchCleanup::Preserved(
                                    "branch contains commits not merged into the source repository HEAD".to_owned(),
                                ),
                            ),
                        );
                    }
                    let mut message = quote(
                        "Failed to determine whether branch '",
                        branch,
                        "' is merged: ",
                    );
                    append_text(&mut message, command_error(output).as_str());
                    return Err(Failure::of(message));
                }
            },
        }
    }
    Ok(BranchPlan::Delete(branch_deletion_args(branch, expected)))
}

/// What became of a branch that was to be deleted.
pub fn finish_branch_deletion(deleted: &Result<CommandOutput, Failure>) -> (r: Result<
    BranchCleanup,
    Failure,
>)
    ensures
        match *deleted {
            Err(failure) => r matches Err(f) && f@ == failure@,
            Ok(output) => if output.success {
                r matches Ok(BranchCleanup::Removed)
            } else {
                r matches Ok(BranchCleanup::Preserved(reason)) && reason@
                    == "atomic branch deletion failed: "@ + super::worktree::complaint(output)
            },
        },
{
    match deleted {
        Err(failure) => Err(failure.clone()),
        Ok(output) => {
            if output.success {
                Ok(BranchCleanup::Removed)
            } else {
                let mut reason = "atomic branch deletion failed: ".to_owned();
                append_text(&mut reason, command_error(output).as_str());
                Ok(BranchCleanup::Preserved(reason))
            }
        },
    }
}

/// Why a worktree is not one that was made for a session any more.
pub open spec fn ownership_refusal(
    registry: super::registry::RegistryModel,
    entry: super::registry::WorktreeModel,
    paths: ResolvedPaths,
    unregistered: Seq<char>,
    changed: Seq<char>,
) -> Option<Seq<Seq<char>>> {
    match super::registry::registered_at(registry, entry.path, paths) {
        None => Some(seq![unregistered]),
        Some(registered) => if registered != entry {
            Some(seq![changed])
        } else {
            None
        },
    }
}

fn check_registered(
    registry: &WorktreeRegistry,
    entry: &ManagedWorktree,
    paths: &ResolvedPaths,
    unregistered: &str,
    changed: &str,
) -> (r: Result<(), Failure>)
    ensures
        match r {
            Ok(_) => ownership_refusal(
                registry@,
                entry@,
                *paths,
                unregistered@,
                changed@,
            ) is None,
            Err(failure) => ownership_refusal(
                registry@,
                entry@,
                *paths,
                unregistered@,
                changed@,
            ) == Some(failure@),
        },
{
    match managed_worktree_for_cwd(registry, entry.path.as_str(), paths) {
        None => Err(Failure::of(unregistered.to_owned())),
        Some(registered) => {
            if same_worktree(&registered, entry) {
                Ok(())
            } else {
                Err(Failure::of(changed.to_owned()))
            }
        },
    }
}

/// Why a worktree may not be removed. It must be registered as it is, be the one it should be, and
/// hold nothing that would be lost, unless the user insists.
pub open spec fn removal_refusal(
    registry: super::registry::RegistryModel,
    entry: super::registry::WorktreeModel,
    force: bool,
    dirty: Result<bool, Seq<Seq<char>>>,
    identity: Result<Seq<char>, Seq<Seq<char>>>,
    paths: ResolvedPaths,
) -> Option<Seq<Seq<char>>> {
    match ownership_refusal(
        registry,
        entry,
        paths,
        "Refusing to remove a worktree that is not registered as TUI-managed"@,
        "Managed worktree metadata changed; reload before deleting"@,
    ) {
        Some(failure) => Some(failure),
        None => match dirty {
            Err(failure) => Some(failure),
            Ok(lossy) => if lossy && !force {
                Some(
                    seq![
                        "Worktree has uncommitted changes and requires explicit force confirmation"@,
                    ],
                )
            } else {
                match identity {
                    Err(failure) => Some(failure),
                    Ok(_) => None,
                }
            },
        },
    }
}

/// How Git is told to remove a worktree.
pub open spec fn removal_arguments(path: Seq<char>, force: bool) -> Seq<Seq<char>> {
    if force {
        seq!["worktree"@, "remove"@, "--force"@, path]
    } else {
        seq!["worktree"@, "remove"@, path]
    }
}

/// A removal that may go ahead: how Git is told, and the commit its branch must be at to go too.
#[derive(Debug)]
pub struct RemovalPlan {
    pub args: Vec<String>,
    pub branch_oid: String,
}

fn removal_args(path: &str, force: bool) -> (args: Vec<String>)
    ensures
        crate::strings::text_views(args@) == removal_arguments(path@, force),
{
    let mut args: Vec<String> = Vec::new();
    args.push("worktree".to_owned());
    args.push("remove".to_owned());
    if force {
        args.push("--force".to_owned());
    }
    args.push(path.to_owned());
    assert(crate::strings::text_views(args@) =~= removal_arguments(path@, force));
    args
}

/// Decides whether a worktree is removed. `dirty` says whether it holds anything that would be lost,
/// and `identity` is its commit, where it is the one it should be.
pub fn remove_managed_worktree(
    registry: &WorktreeRegistry,
    entry: &ManagedWorktree,
    force: bool,
    dirty: Result<bool, Failure>,
    identity: Result<String, Failure>,
    paths: &ResolvedPaths,
) -> (r: Result<RemovalPlan, Failure>)
    ensures
        ({
            let refusal = removal_refusal(
                registry@,
                entry@,
                force,
                super::includes::answer_view(dirty),
                super::worktree::text_outcome(identity),
                *paths,
            );
            match r {
                Ok(plan) => refusal is None && crate::strings::text_views(plan.args@)
                    == removal_arguments(entry.path@, force) && super::worktree::text_outcome(
                    identity,
                ) == Ok::<Seq<char>, Seq<Seq<char>>>(plan.branch_oid@),
                Err(failure) => refusal == Some(failure@),
            }
        }),
{
    match check_registered(
        registry,
        entry,
        paths,
        "Refusing to remove a worktree that is not registered as TUI-managed",
        "Managed worktree metadata changed; reload before deleting",
    ) {
        Ok(_) => {},
        Err(failure) => return Err(failure),
    }
    match dirty {
        Err(failure) => return Err(failure),
        Ok(lossy) => {
            if lossy && !force {
                return Err(
                    Failure::of(
                        "Worktree has uncommitted changes and requires explicit force confirmation".to_owned(),
                    ),
                );
            }
        },
    }
    match identity {
        Err(failure) => Err(failure),
        Ok(branch_oid) => Ok(
            RemovalPlan { args: removal_args(entry.path.as_str(), force), branch_oid },
        ),
    }
}

/// What removing a worktree did to its branch.
#[derive(Debug)]
pub struct RemovalOutcome {
    pub branch_removed: bool,
    pub branch_notice: Option<String>,
}

/// What removing a worktree did. `removed` is what Git said of it, and `cleanup` what became of its
/// branch.
pub fn finish_removal(
    entry: &ManagedWorktree,
    removed: &Result<CommandOutput, Failure>,
    cleanup: Result<BranchCleanup, Failure>,
) -> (r: Result<RemovalOutcome, Failure>)
    ensures
        match super::worktree::git_done(*removed, "Failed to remove worktree: "@) {
            Err(failure) => r matches Err(f) && f@ == failure,
            Ok(_) => match cleanup {
                Err(failure) => r matches Err(f) && f@ == failure@,
                Ok(BranchCleanup::Removed) => r matches Ok(outcome) && outcome.branch_removed
                    && outcome.branch_notice is None,
                Ok(BranchCleanup::Missing) => r matches Ok(outcome) && !outcome.branch_removed && (
                outcome.branch_notice matches Some(notice) && notice@ == super::worktree::quoted(
                    "Worktree removed, but branch '"@,
                    entry.branch@,
                    "' was already absent"@,
                )),
                Ok(BranchCleanup::Preserved(reason)) => r matches Ok(outcome)
                    && !outcome.branch_removed && (outcome.branch_notice matches Some(notice)
                    && notice@ == super::worktree::quoted(
                    "Worktree removed, but branch '"@,
                    entry.branch@,
                    "' was preserved: "@,
                ) + reason@),
            },
        },
{
    match git_succeeded(removed, "Failed to remove worktree: ") {
        Ok(_) => {},
        Err(failure) => return Err(failure),
    }
    match cleanup {
        Err(failure) => Err(failure),
        Ok(BranchCleanup::Removed) => Ok(
            RemovalOutcome { branch_removed: true, branch_notice: None },
        ),
        Ok(BranchCleanup::Missing) => Ok(
            RemovalOutcome {
                branch_removed: false,
                branch_notice: Some(
                    quote(
                        "Worktree removed, but branch '",
                        entry.branch.as_str(),
                        "' was already absent",
                    ),
                ),
            },
        ),
        Ok(BranchCleanup::Preserved(reason)) => {
            let mut notice = quote(
                "Worktree removed, but branch '",
                entry.branch.as_str(),
                "' was preserved: ",
            );
            append_text(&mut notice, reason.as_str());
            Ok(RemovalOutcome { branch_removed: false, branch_notice: Some(notice) })
        },
    }
}

/// Why a worktree that was made may not be unmade.
pub open spec fn rollback_refusal(
    registry: super::registry::RegistryModel,
    entry: super::registry::WorktreeModel,
    identity: Result<Seq<char>, Seq<Seq<char>>>,
    paths: ResolvedPaths,
) -> Option<Seq<Seq<char>>> {
    match ownership_refusal(
        registry,
        entry,
        paths,
        "Refusing to roll back a worktree that is not registered as TUI-managed"@,
        "Managed worktree metadata changed; refusing rollback"@,
    ) {
        Some(failure) => Some(failure),
        None => match identity {
            Err(failure) => Some(failure),
            Ok(_) => None,
        },
    }
}

/// Decides whether a worktree that was made is unmade.
pub fn rollback_created_worktree(
    registry: &WorktreeRegistry,
    entry: &ManagedWorktree,
    identity: Result<String, Failure>,
    paths: &ResolvedPaths,
) -> (r: Result<RemovalPlan, Failure>)
    ensures
        ({
            let refusal = rollback_refusal(
                registry@,
                entry@,
                super::worktree::text_outcome(identity),
                *paths,
            );
            match r {
                Ok(plan) => refusal is None && crate::strings::text_views(plan.args@)
                    == removal_arguments(entry.path@, true) && super::worktree::text_outcome(
                    identity,
                ) == Ok::<Seq<char>, Seq<Seq<char>>>(plan.branch_oid@),
                Err(failure) => refusal == Some(failure@),
            }
        }),
{
    match check_registered(
        registry,
        entry,
        paths,
        "Refusing to roll back a worktree that is not registered as TUI-managed",
        "Managed worktree metadata changed; refusing rollback",
    ) {
        Ok(_) => {},
        Err(failure) => return Err(failure),
    }
    match identity {
        Err(failure) => Err(failure),
        Ok(branch_oid) => Ok(
            RemovalPlan { args: removal_args(entry.path.as_str(), true), branch_oid },
        ),
    }
}

/// How far unmaking a worktree came: what went wrong, and whether the registry is to be written.
#[derive(Debug)]
pub struct RollbackProgress {
    pub errors: Vec<String>,
    pub save: bool,
}

/// What went wrong with the branch of a worktree that was unmade.
pub open spec fn preserved_error(cleanup: BranchCleanup) -> Seq<Seq<char>> {
    match cleanup {
        BranchCleanup::Preserved(reason) => seq!["branch was preserved: "@ + reason@],
        _ => Seq::empty(),
    }
}

/// Takes a worktree that was unmade out of the registry. `removed` is what Git said of removing it,
/// and `cleanup` what became of its branch.
pub fn finish_rollback(
    registry: &mut WorktreeRegistry,
    entry: &ManagedWorktree,
    removed: &Result<CommandOutput, Failure>,
    cleanup: Result<BranchCleanup, Failure>,
) -> (r: Result<RollbackProgress, Failure>)
    ensures
        match super::worktree::git_done(*removed, "Failed to roll back worktree: "@) {
            Err(failure) => (r matches Err(f) && f@ == failure) && final(registry)@
                == old(registry)@,
            Ok(_) => match cleanup {
                Err(failure) => (r matches Err(f) && f@ == failure@) && final(registry)@
                    == old(registry)@,
                Ok(became) => {
                    &&& r matches Ok(progress)
                    &&& progress.save == old(registry)@.worktrees.contains(entry@)
                    &&& crate::strings::text_views(progress.errors@) == preserved_error(became) + (
                    if progress.save {
                        Seq::empty()
                    } else {
                        seq!["registry ownership changed during rollback"@]
                    })
                    &&& final(registry)@ == (super::registry::RegistryModel {
                        worktrees: super::registry::other_worktrees(
                            old(registry)@.worktrees,
                            entry@,
                        ),
                        ..old(registry)@
                    })
                },
            },
        },
{
    match git_succeeded(removed, "Failed to roll back worktree: ") {
        Ok(_) => {},
        Err(failure) => return Err(failure),
    }
    let became = match cleanup {
        Ok(became) => became,
        Err(failure) => return Err(failure),
    };
    let mut errors: Vec<String> = Vec::new();
    if let BranchCleanup::Preserved(reason) = &became {
        let mut text = "branch was preserved: ".to_owned();
        append_text(&mut text, reason.as_str());
        errors.push(text);
    }
    let save = unregister(registry, entry);
    if !save {
        errors.push("registry ownership changed during rollback".to_owned());
    }
    proof {
        assert(crate::strings::text_views(errors@) =~= preserved_error(became) + (if save {
            Seq::empty()
        } else {
            seq!["registry ownership changed during rollback"@]
        }));
    }
    Ok(RollbackProgress { errors, save })
}

/// How unmaking a worktree ended, by what went wrong on the way, and whether the registry could be
/// written at last.
pub open spec fn rollback_end(
    errors: Seq<Seq<char>>,
    unsaved: Option<Seq<Seq<char>>>,
    message: Seq<char>,
) -> Result<(), Seq<Seq<char>>> {
    let all = match unsaved {
        Some(failure) => errors.push(message + super::worktree::shown_message(failure)),
        None => errors,
    };
    if all.len() == 0 {
        Ok(())
    } else {
        Err(seq![crate::strings::joined_texts(all, "; "@)])
    }
}

/// Ends unmaking a worktree. `message` stands before why the registry could not be written.
pub fn conclude_rollback(
    progress: RollbackProgress,
    unsaved: Option<Failure>,
    message: &str,
) -> (r: Result<(), Failure>)
    ensures
        super::worktree::done_outcome(r) == rollback_end(
            crate::strings::text_views(progress.errors@),
            super::includes::failure_view(unsaved),
            message@,
        ),
{
    let mut errors = progress.errors;
    if let Some(failure) = &unsaved {
        let mut text = message.to_owned();
        append_text(&mut text, failure.shown().as_str());
        proof {
            crate::strings::lemma_text_views_push(errors@, text);
        }
        errors.push(text);
    }
    if errors.len() == 0 {
        Ok(())
    } else {
        Err(Failure::of(join_texts(&errors, "; ")))
    }
}

/// Decides whether a worktree that could not be finished is unmade, and how Git is told to remove its
/// directory: only where there is one, and it is the one that was reserved.
pub fn plan_reserved_rollback(
    registry: &WorktreeRegistry,
    reservation: &WorktreeReservation,
    exists: bool,
    identity: &Result<String, Failure>,
) -> (r: Result<Option<Vec<String>>, Failure>)
    ensures
        match r {
            Ok(remove) => registry@.reservations.contains(reservation@) && match remove {
                Some(args) => exists && identity is Ok && crate::strings::text_views(args@)
                    == removal_arguments(reservation.path@, true),
                None => !(exists && identity is Ok),
            },
            Err(failure) => !registry@.reservations.contains(reservation@) && failure@ == seq![
                "Creation reservation ownership changed; refusing rollback"@,
            ],
        },
{
    if !holds_reservation(registry, reservation) {
        return Err(
            Failure::of("Creation reservation ownership changed; refusing rollback".to_owned()),
        );
    }
    if exists && identity.is_ok() {
        Ok(Some(removal_args(reservation.path.as_str(), true)))
    } else {
        Ok(None)
    }
}

/// What went wrong with removing a reserved worktree.
pub open spec fn removal_error(removed: Option<Result<CommandOutput, Failure>>) -> Option<Seq<char>> {
    match removed {
        None => None,
        Some(Err(failure)) => Some(
            "Failed to remove reserved worktree: "@ + super::worktree::shown_message(failure@),
        ),
        Some(Ok(output)) => if output.success {
            None
        } else {
            Some("Failed to remove reserved worktree: "@ + super::worktree::complaint(output))
        },
    }
}

/// What went wrong with the branch of a reserved worktree.
pub open spec fn reserved_branch_error(cleanup: Result<BranchCleanup, Failure>) -> Option<Seq<char>> {
    match cleanup {
        Ok(BranchCleanup::Preserved(reason)) => Some(
            "Reserved branch was preserved: "@ + reason@,
        ),
        Ok(_) => None,
        Err(failure) => Some(
            "Failed to clean up reserved branch: "@ + super::worktree::shown_message(failure@),
        ),
    }
}

/// A text as a list of it, where there is one.
pub open spec fn listed_text(text: Option<Seq<char>>) -> Seq<Seq<char>> {
    match text {
        Some(t) => seq![t],
        None => Seq::empty(),
    }
}

/// Unmakes a worktree that could not be finished. Its reservation is given up only where neither its
/// directory nor its branch remains. `removed` is what Git said of removing the directory, where that
/// was tried.
pub fn rollback_reserved_creation(
    registry: &mut WorktreeRegistry,
    reservation: &WorktreeReservation,
    removed: &Option<Result<CommandOutput, Failure>>,
    cleanup: &Result<BranchCleanup, Failure>,
) -> (progress: RollbackProgress)
    ensures
        ({
            let gone = removal_error(*removed) is None && reserved_branch_error(*cleanup) is None;
            let ours = old(registry)@.reservations.contains(reservation@);
            &&& progress.save == (gone && ours)
            &&& crate::strings::text_views(progress.errors@) == listed_text(
                removal_error(*removed),
            ) + listed_text(reserved_branch_error(*cleanup)) + (if gone && !ours {
                seq!["creation reservation ownership changed during rollback"@]
            } else {
                Seq::empty()
            })
            &&& final(registry)@ == (if progress.save {
                super::registry::RegistryModel {
                    reservations: super::registry::other_reservations(
                        old(registry)@.reservations,
                        reservation@,
                    ),
                    ..old(registry)@
                }
            } else {
                old(registry)@
            })
        }),
{
    let mut errors: Vec<String> = Vec::new();
    let mut save = false;
    if let Some(outcome) = removed {
        match outcome {
            Ok(output) => {
                if !output.success {
                    let mut text = "Failed to remove reserved worktree: ".to_owned();
                    append_text(&mut text, command_error(output).as_str());
                    errors.push(text);
                }
            },
            Err(failure) => {
                let mut text = "Failed to remove reserved worktree: ".to_owned();
                append_text(&mut text, failure.shown().as_str());
                errors.push(text);
            },
        }
    }
    let ghost first = errors@;
    assert(crate::strings::text_views(first) =~= listed_text(removal_error(*removed)));
    match cleanup {
        Ok(became) => {
            if let BranchCleanup::Preserved(reason) = became {
                let mut text = "Reserved branch was preserved: ".to_owned();
                append_text(&mut text, reason.as_str());
                errors.push(text);
            }
        },
        Err(failure) => {
            let mut text = "Failed to clean up reserved branch: ".to_owned();
            append_text(&mut text, failure.shown().as_str());
            errors.push(text);
        },
    }
    assert(crate::strings::text_views(errors@) =~= listed_text(removal_error(*removed))
        + listed_text(reserved_branch_error(*cleanup)));
    let gone = errors.len() == 0;
    assert(gone == (removal_error(*removed) is None && reserved_branch_error(*cleanup) is None)) by {
        assert(crate::strings::text_views(errors@).len() == errors@.len());
    }
    let ghost second = crate::strings::text_views(errors@);
    if gone {
        match release_reservation(registry, reservation) {
            Ok(_) => {
                save = true;
            },
            Err(_) => {
                errors.push("creation reservation ownership changed during rollback".to_owned());
            },
        }
    }
    proof {
        let ours = old(registry)@.reservations.contains(reservation@);
        assert(crate::strings::text_views(errors@) =~= second + (if gone && !ours {
            seq!["creation reservation ownership changed during rollback"@]
        } else {
            Seq::empty()
        }));
    }
    RollbackProgress { errors, save }
}

/// A worktree that holds anything that would be lost is removed only where the user insists.
pub proof fn law_dirty_worktree_needs_force(
    registry: super::registry::RegistryModel,
    entry: super::registry::WorktreeModel,
    force: bool,
    identity: Result<Seq<char>, Seq<Seq<char>>>,
    paths: ResolvedPaths,
)
    requires
        removal_refusal(
            registry,
            entry,
            force,
            Ok::<bool, Seq<Seq<char>>>(true),
            identity,
            paths,
        ) is None,
    ensures
        force,
{
}

/// A worktree whose mark, branch or commit is not what it should be is never removed, not even where
/// the user insists, and neither is one that is not registered just as it is.
pub proof fn law_only_owned_worktrees_are_removed(
    registry: super::registry::RegistryModel,
    entry: super::registry::WorktreeModel,
    force: bool,
    dirty: Result<bool, Seq<Seq<char>>>,
    expected: ExpectedIdentity,
    seen: IdentityFacts,
    paths: ResolvedPaths,
)
    requires
        removal_refusal(
            registry,
            entry,
            force,
            dirty,
            identified(expected, seen, paths),
            paths,
        ) is None,
    ensures
        super::registry::registered_at(registry, entry.path, paths) == Some(entry),
        marker_refusal(seen.marker, expected) is None,
        super::worktree::git_text(seen.current_branch) == Ok::<Seq<char>, Seq<Seq<char>>>(
            expected.branch@,
        ),
{
}

/// A branch is deleted only where it is at the commit it should be at; and where its commits must be
/// in the repository, only where Git said that they are.
pub proof fn law_branch_is_deleted_only_when_owned(
    branch: Seq<char>,
    expected: Seq<char>,
    require_merged: bool,
    tip: Result<CommandOutput, Failure>,
    listing: Result<CommandOutput, Failure>,
    merged: Result<CommandOutput, Failure>,
)
    requires
        branch_plan(branch, expected, require_merged, tip, listing, merged) matches Ok(
            BranchPlanModel::Delete(_),
        ),
    ensures
        branch_plan(branch, expected, require_merged, tip, listing, merged) == Ok::<
            BranchPlanModel,
            Seq<Seq<char>>,
        >(BranchPlanModel::Delete(deletion_arguments(branch, expected))),
        tip_of(branch, tip) == Ok::<Option<Seq<char>>, Seq<Seq<char>>>(Some(expected)),
        require_merged ==> (merged matches Ok(output) && output.success),
{
}

/// Git is told to remove the worktree itself: the arguments begin with `worktree` and `remove`, end
/// with the path, and between these stands `--force` exactly where the user insists.
pub proof fn law_a_removal_names_the_worktree(path: Seq<char>, force: bool)
    ensures
        ({
            let args = removal_arguments(path, force);
            &&& args.len() >= 3
            &&& args[0] == "worktree"@
            &&& args[1] == "remove"@
            &&& args.last() == path
            &&& args.subrange(2, args.len() - 1) == if force {
                seq!["--force"@]
            } else {
                Seq::empty()
            }
        }),
{
    let args = removal_arguments(path, force);
    if force {
        assert(args.subrange(2, args.len() - 1) =~= seq!["--force"@]);
    } else {
        assert(args.subrange(2, args.len() - 1) =~= Seq::empty());
    }
}

/// Git is told to delete just the branch, and only from the commit it was seen at: the arguments name
/// the branch in full and end with that commit, so two deletions are told alike only for one branch
/// at one commit.
pub proof fn law_a_deletion_names_the_branch_and_its_commit(
    branch: Seq<char>,
    expected: Seq<char>,
    other: Seq<char>,
    commit: Seq<char>,
)
    ensures
        ({
            let args = deletion_arguments(branch, expected);
            &&& args.len() == 4
            &&& args[0] == "update-ref"@
            &&& args[1] == "-d"@
            &&& args[2].take(11) == "refs/heads/"@
            &&& args[2].skip(11) == branch
            &&& args.last() == expected
        }),
        deletion_arguments(branch, expected) == deletion_arguments(other, commit) ==> branch == other
            && expected == commit,
{
    reveal_strlit("refs/heads/");
    let a = deletion_arguments(branch, expected);
    let b = deletion_arguments(other, commit);
    assert(a[2].take(11) =~= "refs/heads/"@);
    assert(a[2].skip(11) =~= branch);
    assert(b[2].skip(11) =~= other);
}

/// A worktree is removed exactly where it is registered as it is, where it could be looked into, where
/// nothing would be lost or that was forced, and where it is what it should be.
pub proof fn law_owned_worktrees_are_removed(
    registry: super::registry::RegistryModel,
    entry: super::registry::WorktreeModel,
    force: bool,
    dirty: Result<bool, Seq<Seq<char>>>,
    identity: Result<Seq<char>, Seq<Seq<char>>>,
    paths: ResolvedPaths,
)
    ensures
        removal_refusal(registry, entry, force, dirty, identity, paths) is None <==> {
            &&& super::registry::registered_at(registry, entry.path, paths) == Some(entry)
            &&& dirty matches Ok(lossy) && (lossy ==> force)
            &&& identity is Ok
        },
        rollback_refusal(registry, entry, identity, paths) is None <==> {
            &&& super::registry::registered_at(registry, entry.path, paths) == Some(entry)
            &&& identity is Ok
        },
{
}

/// A worktree is what it should be exactly where its repository, its mark, its branch and its commit
/// are those that were noted; and the commit that is found is the one that its branch ends in.
pub proof fn law_identity_needs_every_mark(
    expected: ExpectedIdentity,
    seen: IdentityFacts,
    paths: ResolvedPaths,
    commit: Seq<char>,
)
    ensures
        identified(expected, seen, paths) == Ok::<Seq<char>, Seq<Seq<char>>>(commit) <==> {
            &&& seen.repository matches Ok(repository) && paths.key(repository.main_worktree@)
                == paths.key(expected.source_repository@) && paths.key(repository.common_git_dir@)
                == paths.key(expected.common_git_dir@)
            &&& seen.marker matches MarkerFacts::Read(mark) && mark.identity@ == expected.identity@
                && mark.source_repository@ == expected.source_repository@ && mark.common_git_dir@
                == expected.common_git_dir@ && mark.branch@ == expected.branch@
            &&& seen.current_branch matches Ok(current) && current.success && super::worktree::printed(
                current.stdout@,
            ) == expected.branch@
            &&& seen.head matches Ok(head) && head.success && super::worktree::printed(head.stdout@)
                == commit
            &&& seen.tip matches Ok(tip) && tip.success && super::worktree::printed(tip.stdout@)
                == commit
        },
{
}

/// A branch is deleted exactly where it still ends in the expected commit, where no worktree has it,
/// and where it is merged or need not be.
pub proof fn law_unneeded_branches_are_deleted(
    branch: Seq<char>,
    expected: Seq<char>,
    require_merged: bool,
    tip: Result<CommandOutput, Failure>,
    listing: Result<CommandOutput, Failure>,
    merged: Result<CommandOutput, Failure>,
)
    ensures
        branch_plan(branch, expected, require_merged, tip, listing, merged) matches Ok(
            BranchPlanModel::Delete(_),
        ) <==> {
            &&& tip matches Ok(end) && end.success && super::worktree::printed(end.stdout@) == expected
            &&& listing matches Ok(shown) && shown.success && !crate::strings::lines(
                super::worktree::printed(shown.stdout@),
            ).contains("branch refs/heads/"@ + branch)
            &&& !require_merged || (merged matches Ok(answer) && answer.success)
        },
        branch_plan(branch, expected, require_merged, tip, listing, merged) == Ok::<
            BranchPlanModel,
            Seq<Seq<char>>,
        >(BranchPlanModel::Missing) <==> (tip matches Ok(end)
            && !end.success && end.code == Some(1i32)),
{
}

/// A rollback that left nothing undone ends well, and one that did tells of all of it in one text.
pub proof fn law_rollbacks_tell_what_is_left(
    errors: Seq<Seq<char>>,
    unsaved: Option<Seq<Seq<char>>>,
    message: Seq<char>,
)
    ensures
        rollback_end(errors, unsaved, message) is Ok <==> errors.len() == 0 && unsaved is None,
        unsaved is None && errors.len() > 0 ==> rollback_end(errors, unsaved, message) == Err::<
            (),
            Seq<Seq<char>>,
        >(seq![crate::strings::joined_texts(errors, "; "@)]),
        unsaved matches Some(cause) ==> cause.len() > 0 ==> rollback_end(errors, unsaved, message)
            == Err::<(), Seq<Seq<char>>>(
            seq![crate::strings::joined_texts(errors.push(message + cause[0]), "; "@)],
        ),
{
}

/// What went wrong in a rollback is told: a removal that failed, and a branch that stayed.
pub proof fn law_rollback_failures_are_told(
    removed: Option<Result<CommandOutput, Failure>>,
    cleanup: Result<BranchCleanup, Failure>,
)
    ensures
        removal_error(removed) is None <==> removed is None || (removed matches Some(Ok(output))
            && output.success),
        reserved_branch_error(cleanup) is None <==> (cleanup matches Ok(end) && !(end is Preserved)),
        cleanup matches Ok(BranchCleanup::Preserved(reason)) ==> reserved_branch_error(cleanup) == Some(
            "Reserved branch was preserved: "@ + reason@,
        ),
{
}

} // verus!
