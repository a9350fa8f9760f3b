//! How a worktree is made for a session, one step after the other, and how a failure is undone.

use super::includes::WorktreeIncludeState;
use super::manager::random_id;
use super::registry::{ManagedWorktree, WorktreeReservation};
use super::worktree::{
    derive_worktree_path, git_succeeded, quote, resolve_base, validate_branch,
    CommandOutput, Failure, Repository, ResolvedPaths,
};
use crate::paths::path_parent;
use crate::strings::append_text;
use vstd::prelude::*;

verus! {

/// A worktree that can be made: what is reserved for it, where it was placed, and what the user is
/// told.
#[derive(Debug)]
pub struct CreationPlan {
    pub reservation: WorktreeReservation,
    pub path: String,
    pub notice: Option<String>,
}

/// What was seen before a worktree is made: the project's repository; what Git said of the branch's
/// name; the repository of its main worktree; what Git said of the branch, of the remote's commit and
/// of the present one.
pub struct CreationFacts {
    pub project: Result<Repository, Failure>,
    pub checked: Result<CommandOutput, Failure>,
    pub main: Result<Repository, Failure>,
    pub shown: Result<CommandOutput, Failure>,
    pub remote: Result<CommandOutput, Failure>,
    pub head: Result<CommandOutput, Failure>,
}

/// Where a worktree is placed and at which commit it begins, or why it cannot be made.
pub open spec fn creation_plan(
    branch: Seq<char>,
    root: Seq<char>,
    seen: CreationFacts,
    windows: bool,
) -> Result<(Seq<char>, Seq<char>, Option<Seq<char>>), Seq<Seq<char>>> {
    match seen.project {
        Err(failure) => Err(failure@),
        Ok(repository) => match super::worktree::branch_refusal(
            branch,
            seen.checked,
            seen.main,
            seen.shown,
        ) {
            Err(failure) => Err(failure),
            Ok(_) => match super::worktree::worktree_path(
                root,
                repository.main_worktree@,
                repository.common_git_dir@,
                branch,
                windows,
            ) {
                Err(failure) => Err(failure),
                Ok(path) => match super::worktree::base_of(seen.remote, seen.head) {
                    Err(failure) => Err(failure),
                    Ok((base, notice)) => Ok((path, base, notice)),
                },
            },
        },
    }
}

/// Plans a worktree for a branch below a root. Its mark is a fresh random one.
pub fn plan_creation(
    branch: &str,
    root: &str,
    seen: &CreationFacts,
    paths: &ResolvedPaths,
) -> (r: Result<CreationPlan, Failure>)
    ensures
        match r {
            Ok(plan) => {
                &&& creation_plan(branch@, root@, *seen, paths.windows) == Ok::<
                    (Seq<char>, Seq<char>, Option<Seq<char>>),
                    Seq<Seq<char>>,
                >(
                    (
                        plan.path@,
                        plan.reservation.base_oid@,
                        crate::session::process::text_view(plan.notice),
                    ),
                )
                &&& seen.project matches Ok(repository)
                &&& super::manager::random_id_shape(plan.reservation.identity@)
                &&& plan.reservation.path@ == paths.resolved(plan.path@)
                &&& plan.reservation.source_repository@ == repository.main_worktree@
                &&& plan.reservation.common_git_dir@ == repository.common_git_dir@
                &&& plan.reservation.branch@ == branch@
            },
            Err(failure) => creation_plan(branch@, root@, *seen, paths.windows) == Err::<
                (Seq<char>, Seq<char>, Option<Seq<char>>),
                Seq<Seq<char>>,
            >(failure@),
        },
{
    let repository = match &seen.project {
        Ok(repository) => repository.clone(),
        Err(failure) => return Err(failure.clone()),
    };
    match validate_branch(branch, &seen.checked, &seen.main, &seen.shown) {
        Ok(_) => {},
        Err(failure) => return Err(failure),
    }
    let path = match derive_worktree_path(
        root,
        repository.main_worktree.as_str(),
        repository.common_git_dir.as_str(),
        branch,
        paths.windows,
    ) {
        Ok(path) => path,
        Err(failure) => return Err(failure),
    };
    let (base_oid, notice) = match resolve_base(&seen.remote, &seen.head) {
        Ok(base) => base,
        Err(failure) => return Err(failure),
    };
    let reservation = WorktreeReservation {
        identity: random_id(),
        path: paths.resolve(path.as_str()),
        source_repository: repository.main_worktree,
        common_git_dir: repository.common_git_dir,
        branch: branch.to_owned(),
        base_oid,
    };
    Ok(CreationPlan { reservation, path, notice })
}

/// A worktree that was made, and what the user is told.
#[derive(Debug)]
pub struct CreatedWorktree {
    pub entry: ManagedWorktree,
    pub notice: Option<String>,
}

/// What is to be done next to make a worktree.
#[derive(Debug)]
pub enum CreationStage {
    /// Reserve its place and its branch in the registry.
    Reserve,
    /// Make the directory it is to lie in.
    CreateRoot,
    /// Make the branch, where there is none of its name.
    ReserveBranch,
    /// Make the worktree, without its files.
    AddWorktree,
    /// Mark it.
    WriteIdentity,
    /// Fill it.
    Populate,
    /// Copy what it gets beside that.
    Initialize,
    /// Enter it into the registry.
    Register(ManagedWorktree),
    /// Give the reservation up after a failure.
    Release(Failure),
    /// Undo what was made after a failure.
    RollBack(Failure),
    Finished(Result<CreatedWorktree, Failure>),
}

/// What came of a step.
pub enum CreationEvent {
    Done(Result<(), Failure>),
    Output(Result<CommandOutput, Failure>),
    Included(Result<WorktreeIncludeState, Failure>),
}

/// Whether an event can come of a step.
pub open spec fn fits(stage: CreationStage, event: CreationEvent) -> bool {
    match stage {
        CreationStage::ReserveBranch
        | CreationStage::AddWorktree
        | CreationStage::Populate => event is Output,
        CreationStage::Initialize => event is Included,
        CreationStage::Finished(_) => false,
        _ => event is Done,
    }
}

/// Whether a stage undoes what was made, after a failure with these messages.
pub open spec fn rolls_back(stage: CreationStage, messages: Seq<Seq<char>>) -> bool {
    stage matches CreationStage::RollBack(failure) && failure@ == messages
}

/// Whether a stage gives the reservation up, after a failure with these messages.
pub open spec fn releases(stage: CreationStage, messages: Seq<Seq<char>>) -> bool {
    stage matches CreationStage::Release(failure) && failure@ == messages
}

/// Whether a stage is the end, with a failure with these messages.
pub open spec fn fails(stage: CreationStage, messages: Seq<Seq<char>>) -> bool {
    stage matches CreationStage::Finished(Err(failure)) && failure@ == messages
}

/// The worktree that comes of a reservation and of what was copied.
pub open spec fn entry_of(
    reservation: super::registry::ReservationModel,
    included: WorktreeIncludeState,
) -> super::registry::WorktreeModel {
    super::registry::WorktreeModel {
        path: reservation.path,
        source_repository: reservation.source_repository,
        common_git_dir: reservation.common_git_dir,
        branch: reservation.branch,
        identity: reservation.identity,
        include_patterns: crate::session::process::text_view(included.patterns),
        included_files: super::registry::included_views(included.files@),
    }
}

/// The stage that follows another. Before the branch is made a failure gives the reservation up; after
/// that it undoes everything.
pub open spec fn next_creation(
    plan: CreationPlan,
    stage: CreationStage,
    event: CreationEvent,
    windows: bool,
    next: CreationStage,
) -> bool {
    match (stage, event) {
        (CreationStage::Reserve, CreationEvent::Done(Ok(_))) => if crate::paths::parent(
            plan.path@,
            windows,
        ) is Some {
            next is CreateRoot
        } else {
            next is ReserveBranch
        },
        (CreationStage::Reserve, CreationEvent::Done(Err(failure))) => fails(next, failure@),
        (CreationStage::CreateRoot, CreationEvent::Done(Ok(_))) => next is ReserveBranch,
        (CreationStage::CreateRoot, CreationEvent::Done(Err(failure))) => releases(
            next,
            seq![
                "Failed to create worktree root: "@ + (match crate::paths::parent(
                    plan.path@,
                    windows,
                ) {
                    Some(up) => up,
                    None => Seq::empty(),
                }),
            ] + failure@,
        ),
        (CreationStage::ReserveBranch, CreationEvent::Output(outcome)) => {
            match super::worktree::git_done(
                outcome,
                super::worktree::quoted(
                    "Failed to reserve branch '"@,
                    plan.reservation.branch@,
                    "': "@,
                ),
            ) {
                Ok(_) => next is AddWorktree,
                Err(failure) => releases(next, failure),
            }
        },
        (CreationStage::AddWorktree, CreationEvent::Output(outcome)) => {
            match super::worktree::git_done(outcome, "Failed to create worktree: "@) {
                Ok(_) => next is WriteIdentity,
                Err(failure) => rolls_back(next, failure),
            }
        },
        (CreationStage::WriteIdentity, CreationEvent::Done(Ok(_))) => next is Populate,
        (CreationStage::WriteIdentity, CreationEvent::Done(Err(failure))) => rolls_back(
            next,
            seq!["Failed to persist worktree ownership identity"@] + failure@,
        ),
        (CreationStage::Populate, CreationEvent::Output(outcome)) => {
            match super::worktree::git_done(outcome, "Failed to populate worktree: "@) {
                Ok(_) => next is Initialize,
                Err(failure) => rolls_back(next, failure),
            }
        },
        (CreationStage::Initialize, CreationEvent::Included(Ok(included))) => {
            next matches CreationStage::Register(entry) && entry@ == entry_of(
                plan.reservation@,
                included,
            )
        },
        (CreationStage::Initialize, CreationEvent::Included(Err(failure))) => rolls_back(
            next,
            seq!["Worktree initialization failed"@] + failure@,
        ),
        (CreationStage::Register(entry), CreationEvent::Done(Ok(_))) => {
            next matches CreationStage::Finished(Ok(created)) && created.entry@ == entry@
                && crate::session::process::text_view(created.notice)
                == crate::session::process::text_view(plan.notice)
        },
        (CreationStage::Register(_), CreationEvent::Done(Err(failure))) => rolls_back(
            next,
            seq!["Failed to register worktree"@] + failure@,
        ),
        (CreationStage::Release(failure), CreationEvent::Done(Ok(_))) => fails(next, failure@),
        (CreationStage::Release(failure), CreationEvent::Done(Err(cause))) => fails(
            next,
            seq![
                "Creation reservation cleanup also failed: "@ + super::worktree::shown_message(
                    cause@,
                ),
            ] + failure@,
        ),
        (CreationStage::RollBack(failure), CreationEvent::Done(Ok(_))) => fails(
            next,
            seq!["Creation was rolled back"@] + failure@,
        ),
        (CreationStage::RollBack(failure), CreationEvent::Done(Err(cause))) => fails(
            next,
            seq![
                "Creation rollback refused or failed: "@ + super::worktree::shown_message(cause@),
            ] + failure@,
        ),
        _ => false,
    }
}

fn named(message: &str, text: &str) -> (r: String)
    ensures
        r@ == message@ + text@,
{
    let mut r = message.to_owned();
    append_text(&mut r, text);
    r
}

fn entry_from(reservation: &WorktreeReservation, included: WorktreeIncludeState) -> (entry:
    ManagedWorktree)
    ensures
        entry@ == entry_of(reservation@, included),
{
    ManagedWorktree {
        path: reservation.path.clone(),
        source_repository: reservation.source_repository.clone(),
        common_git_dir: reservation.common_git_dir.clone(),
        branch: reservation.branch.clone(),
        identity: reservation.identity.clone(),
        include_patterns: included.patterns,
        included_files: included.files,
    }
}

fn after_done(plan: &CreationPlan, stage: CreationStage, done: Result<(), Failure>, windows: bool) -> (
next: CreationStage)
    requires
        fits(stage, CreationEvent::Done(done)),
    ensures
        next_creation(*plan, stage, CreationEvent::Done(done), windows, next),
{
    match done {
        Ok(_) => match stage {
            CreationStage::Reserve => match path_parent(plan.path.as_str(), windows) {
                Some(_) => CreationStage::CreateRoot,
                None => CreationStage::ReserveBranch,
            },
            CreationStage::CreateRoot => CreationStage::ReserveBranch,
            CreationStage::WriteIdentity => CreationStage::Populate,
            CreationStage::Register(entry) => {
                let notice = match &plan.notice {
                    Some(notice) => Some(notice.clone()),
                    None => None,
                };
                CreationStage::Finished(Ok(CreatedWorktree { entry, notice }))
            },
            CreationStage::Release(failure) => CreationStage::Finished(Err(failure)),
            CreationStage::RollBack(failure) => CreationStage::Finished(
                Err(failure.context("Creation was rolled back".to_owned())),
            ),
            other => other,
        },
        Err(cause) => match stage {
            CreationStage::Reserve => CreationStage::Finished(Err(cause)),
            CreationStage::CreateRoot => {
                let up = match path_parent(plan.path.as_str(), windows) {
                    Some(up) => up,
                    None => String::new(),
                };
                CreationStage::Release(
                    cause.context(named("Failed to create worktree root: ", up.as_str())),
                )
            },
            CreationStage::WriteIdentity => CreationStage::RollBack(
                cause.context("Failed to persist worktree ownership identity".to_owned()),
            ),
            CreationStage::Register(_) => CreationStage::RollBack(
                cause.context("Failed to register worktree".to_owned()),
            ),
            CreationStage::Release(failure) => {
                let shown = cause.shown();
                CreationStage::Finished(
                    Err(
                        failure.context(
                            named("Creation reservation cleanup also failed: ", shown.as_str()),
                        ),
                    ),
                )
            },
            CreationStage::RollBack(failure) => {
                let shown = cause.shown();
                CreationStage::Finished(
                    Err(
                        failure.context(
                            named("Creation rollback refused or failed: ", shown.as_str()),
                        ),
                    ),
                )
            },
            other => other,
        },
    }
}

fn after_output(
    plan: &CreationPlan,
    stage: CreationStage,
    outcome: Result<CommandOutput, Failure>,
    windows: bool,
) -> (next: CreationStage)
    requires
        fits(stage, CreationEvent::Output(outcome)),
    ensures
        next_creation(*plan, stage, CreationEvent::Output(outcome), windows, next),
{
    match stage {
        CreationStage::ReserveBranch => {
            let message = quote(
                "Failed to reserve branch '",
                plan.reservation.branch.as_str(),
                "': ",
            );
            match git_succeeded(&outcome, message.as_str()) {
                Ok(_) => CreationStage::AddWorktree,
                Err(failure) => CreationStage::Release(failure),
            }
        },
        CreationStage::AddWorktree => match git_succeeded(&outcome, "Failed to create worktree: ") {
            Ok(_) => CreationStage::WriteIdentity,
            Err(failure) => CreationStage::RollBack(failure),
        },
        CreationStage::Populate => match git_succeeded(&outcome, "Failed to populate worktree: ") {
            Ok(_) => CreationStage::Initialize,
            Err(failure) => CreationStage::RollBack(failure),
        },
        other => other,
    }
}

/// Goes on with making a worktree.
pub fn create_managed_worktree(
    plan: &CreationPlan,
    stage: CreationStage,
    event: CreationEvent,
    windows: bool,
) -> (next: CreationStage)
    requires
        fits(stage, event),
    ensures
        next_creation(*plan, stage, event, windows, next),
{
    match event {
        CreationEvent::Done(done) => after_done(plan, stage, done, windows),
        CreationEvent::Output(outcome) => after_output(plan, stage, outcome, windows),
        CreationEvent::Included(included) => match included {
            Ok(state) => CreationStage::Register(entry_from(&plan.reservation, state)),
            Err(failure) => CreationStage::RollBack(
                failure.context("Worktree initialization failed".to_owned()),
            ),
        },
    }
}

/// A run of Git: in which directory, and how it is told.
#[derive(Debug)]
pub struct GitRun {
    pub directory: String,
    pub args: Vec<String>,
}

/// How Git is told at a stage, and where. The branch is made only where there is none of its name.
pub open spec fn stage_run(plan: CreationPlan, stage: CreationStage) -> Option<
    (Seq<char>, Seq<Seq<char>>),
> {
    match stage {
        CreationStage::ReserveBranch => Some(
            (
                plan.reservation.source_repository@,
                seq![
                    "update-ref"@,
                    "refs/heads/"@ + plan.reservation.branch@,
                    plan.reservation.base_oid@,
                    "0000000000000000000000000000000000000000"@,
                ],
            ),
        ),
        CreationStage::AddWorktree => Some(
            (
                plan.reservation.source_repository@,
                seq![
                    "worktree"@,
                    "add"@,
                    "--no-checkout"@,
                    plan.reservation.path@,
                    plan.reservation.branch@,
                ],
            ),
        ),
        CreationStage::Populate => Some(
            (plan.reservation.path@, seq!["reset"@, "--hard"@, "HEAD"@]),
        ),
        _ => None,
    }
}

/// How Git is told at a stage, and where.
pub fn creation_command(plan: &CreationPlan, stage: &CreationStage) -> (run: Option<GitRun>)
    ensures
        match run {
            Some(r) => stage_run(*plan, *stage) == Some(
                (r.directory@, crate::strings::text_views(r.args@)),
            ),
            None => stage_run(*plan, *stage) is None,
        },
{
    let mut args: Vec<String> = Vec::new();
    match stage {
        CreationStage::ReserveBranch => {
            args.push("update-ref".to_owned());
            args.push(named("refs/heads/", plan.reservation.branch.as_str()));
            args.push(plan.reservation.base_oid.clone());
            args.push("0000000000000000000000000000000000000000".to_owned());
            assert(crate::strings::text_views(args@) =~= (stage_run(*plan, *stage)->0).1);
            Some(GitRun { directory: plan.reservation.source_repository.clone(), args })
        },
        CreationStage::AddWorktree => {
            args.push("worktree".to_owned());
            args.push("add".to_owned());
            args.push("--no-checkout".to_owned());
            args.push(plan.reservation.path.clone());
            args.push(plan.reservation.branch.clone());
            assert(crate::strings::text_views(args@) =~= (stage_run(*plan, *stage)->0).1);
            Some(GitRun { directory: plan.reservation.source_repository.clone(), args })
        },
        CreationStage::Populate => {
            args.push("reset".to_owned());
            args.push("--hard".to_owned());
            args.push("HEAD".to_owned());
            assert(crate::strings::text_views(args@) =~= (stage_run(*plan, *stage)->0).1);
            Some(GitRun { directory: plan.reservation.path.clone(), args })
        },
        _ => None,
    }
}

/// Whether the branch of a worktree has been made at a stage, and nothing has failed yet.
pub open spec fn branch_made(stage: CreationStage) -> bool {
    stage is AddWorktree || stage is WriteIdentity || stage is Populate || stage is Initialize
        || stage is Register
}

/// Making a worktree ends in success only once it has been registered. It ends in failure only where
/// nothing was reserved, or after the reservation was given up or everything was undone.
pub proof fn law_no_failure_leaves_a_reservation(
    plan: CreationPlan,
    stage: CreationStage,
    event: CreationEvent,
    windows: bool,
    end: Result<CreatedWorktree, Failure>,
)
    requires
        next_creation(plan, stage, event, windows, CreationStage::Finished(end)),
    ensures
        match end {
            Ok(_) => stage is Register && event matches CreationEvent::Done(Ok(_)),
            Err(_) => stage is Release || stage is RollBack || (stage is Reserve
                && event matches CreationEvent::Done(Err(_))),
        },
{
}

/// Once the branch has been made, every failure is undone.
pub proof fn law_failures_after_the_branch_are_rolled_back(
    plan: CreationPlan,
    stage: CreationStage,
    event: CreationEvent,
    windows: bool,
    next: CreationStage,
)
    requires
        branch_made(stage),
        next_creation(plan, stage, event, windows, next),
    ensures
        branch_made(next) || next is RollBack || next matches CreationStage::Finished(Ok(_)),
{
}

/// What is registered in the end lays claim to just what was reserved.
pub proof fn law_registered_worktree_is_the_reserved_one(
    plan: CreationPlan,
    event: CreationEvent,
    windows: bool,
    entry: ManagedWorktree,
    paths: ResolvedPaths,
)
    requires
        next_creation(
            plan,
            CreationStage::Initialize,
            event,
            windows,
            CreationStage::Register(entry),
        ),
    ensures
        super::registry::worktree_claim(entry@, paths) == super::registry::reservation_claim(
            plan.reservation@,
            paths,
        ),
        entry@.identity == plan.reservation@.identity,
{
}

/// A worktree begins at the remote's commit wherever Git knows that, and at the present one
/// otherwise; only then is there a notice.
pub proof fn law_a_worktree_begins_at_the_remote_where_it_can(
    branch: Seq<char>,
    root: Seq<char>,
    seen: CreationFacts,
    windows: bool,
)
    ensures
        creation_plan(branch, root, seen, windows) matches Ok((_, base, notice)) ==> {
            &&& seen.remote matches Ok(remote)
            &&& (notice is None) == remote.success
            &&& if remote.success {
                base == super::worktree::printed(remote.stdout@)
            } else {
                super::worktree::git_text(seen.head) == Ok::<Seq<char>, Seq<Seq<char>>>(base)
            }
        },
{
}

/// Of two creations for one branch of one repository at most one is reserved: once the first has its
/// reservation, and while it or the worktree that came of it is in the registry, the second is refused.
pub proof fn law_only_one_of_two_equal_creations_is_reserved(
    first: CreationPlan,
    second: CreationPlan,
    registry: super::registry::RegistryModel,
    exists: bool,
    listing: Result<Seq<char>, Seq<Seq<char>>>,
    paths: ResolvedPaths,
)
    requires
        first.reservation@.common_git_dir == second.reservation@.common_git_dir,
        first.reservation@.branch == second.reservation@.branch,
        registry.reservations.contains(first.reservation@) || exists|i: int|
            0 <= i < registry.worktrees.len() && (#[trigger] registry.worktrees[i]).path
                == first.reservation@.path && registry.worktrees[i].common_git_dir
                == first.reservation@.common_git_dir && registry.worktrees[i].branch
                == first.reservation@.branch,
    ensures
        super::registry::reservation_refusal(
            registry,
            second.reservation@,
            exists,
            listing,
            paths,
        ) is Some,
{
    super::registry::law_a_second_reservation_is_refused(
        registry,
        first.reservation@,
        second.reservation@,
        exists,
        listing,
        paths,
    );
}

/// What Git is asked to do for a new worktree. The branch is made at its base, in the source
/// repository, and only where there was none; the worktree is added at its path with that branch, with
/// nothing in it; and it is filled in its own directory.
pub proof fn law_git_makes_the_reserved_worktree(plan: CreationPlan)
    ensures
        stage_run(plan, CreationStage::ReserveBranch) matches Some((directory, args)) && {
            &&& directory == plan.reservation.source_repository@
            &&& args.len() == 4 && args[0] == "update-ref"@
            &&& args[1].take(11) == "refs/heads/"@ && args[1].skip(11) == plan.reservation.branch@
            &&& args[2] == plan.reservation.base_oid@
            &&& args[3].len() == 40 && forall|i: int| 0 <= i < 40 ==> #[trigger] args[3][i] == '0'
        },
        stage_run(plan, CreationStage::AddWorktree) matches Some((directory, args)) && {
            &&& directory == plan.reservation.source_repository@
            &&& args.len() == 5 && args[0] == "worktree"@ && args[1] == "add"@
            &&& args[2] == "--no-checkout"@
            &&& args[3] == plan.reservation.path@
            &&& args[4] == plan.reservation.branch@
        },
        stage_run(plan, CreationStage::Populate) matches Some((directory, args)) && {
            &&& directory == plan.reservation.path@
            &&& args.len() == 3 && args[0] == "reset"@ && args[1] == "--hard"@ && args[2] == "HEAD"@
        },
{
    reveal_strlit("refs/heads/");
    reveal_strlit("0000000000000000000000000000000000000000");
    let name = "refs/heads/"@ + plan.reservation.branch@;
    assert(name.take(11) =~= "refs/heads/"@);
    assert(name.skip(11) =~= plan.reservation.branch@);
}

/// The place of a stage in the order of the work.
pub open spec fn place_in_order(stage: CreationStage) -> int {
    match stage {
        CreationStage::Reserve => 0,
        CreationStage::CreateRoot => 1,
        CreationStage::ReserveBranch => 2,
        CreationStage::AddWorktree => 3,
        CreationStage::WriteIdentity => 4,
        CreationStage::Populate => 5,
        CreationStage::Initialize => 6,
        CreationStage::Register(_) => 7,
        CreationStage::Finished(Ok(_)) => 8,
        _ => -1,
    }
}

/// Whether an event says that a stage went well.
pub open spec fn went_well(event: CreationEvent) -> bool {
    match event {
        CreationEvent::Done(outcome) => outcome is Ok,
        CreationEvent::Output(outcome) => outcome matches Ok(output) && output.success,
        CreationEvent::Included(outcome) => outcome is Ok,
    }
}

/// Each stage that goes well is followed by the next one, and one that goes wrong by none of them; only
/// a root that has no place of its own is not made.
pub proof fn law_stages_follow_one_another(
    plan: CreationPlan,
    stage: CreationStage,
    event: CreationEvent,
    windows: bool,
    next: CreationStage,
)
    requires
        0 <= place_in_order(stage) < 8,
        next_creation(plan, stage, event, windows, next),
    ensures
        went_well(event) ==> place_in_order(next) == place_in_order(stage) + (if stage is Reserve
            && crate::paths::parent(plan.path@, windows) is None {
            2int
        } else {
            1int
        }),
        !went_well(event) ==> place_in_order(next) == -1,
{
}

/// The failure that ends a creation is told last, behind what became of the reservation or the branch.
pub proof fn law_the_cause_is_told(
    plan: CreationPlan,
    failure: Failure,
    event: CreationEvent,
    windows: bool,
    end: Result<CreatedWorktree, Failure>,
)
    requires
        next_creation(
            plan,
            CreationStage::Release(failure),
            event,
            windows,
            CreationStage::Finished(end),
        ) || next_creation(
            plan,
            CreationStage::RollBack(failure),
            event,
            windows,
            CreationStage::Finished(end),
        ),
    ensures
        end matches Err(told) && told@.len() >= failure@.len() && told@.skip(
            told@.len() - failure@.len(),
        ) == failure@,
{
    if let Err(told) = end {
        assert(told@.skip(told@.len() - failure@.len()) =~= failure@);
    }
}

/// What is made is what was registered, and it is told with the notice of its plan.
pub proof fn law_the_made_worktree_is_the_registered_one(
    plan: CreationPlan,
    entry: ManagedWorktree,
    event: CreationEvent,
    windows: bool,
    created: CreatedWorktree,
)
    requires
        next_creation(
            plan,
            CreationStage::Register(entry),
            event,
            windows,
            CreationStage::Finished(Ok(created)),
        ),
    ensures
        created.entry@ == entry@,
        plan.notice is None ==> created.notice is None,
        plan.notice matches Some(notice) ==> created.notice is Some && created.notice->0@ == notice@,
{
}

/// A worktree is registered under what was reserved, with the files that were copied into it.
pub proof fn law_registered_worktrees_hold_what_was_copied(
    plan: CreationPlan,
    included: WorktreeIncludeState,
    windows: bool,
    entry: ManagedWorktree,
    i: int,
)
    requires
        next_creation(
            plan,
            CreationStage::Initialize,
            CreationEvent::Included(Ok(included)),
            windows,
            CreationStage::Register(entry),
        ),
        0 <= i < included.files@.len(),
    ensures
        entry@.path == plan.reservation.path@,
        entry@.branch == plan.reservation.branch@,
        entry@.source_repository == plan.reservation.source_repository@,
        entry@.common_git_dir == plan.reservation.common_git_dir@,
        entry@.identity == plan.reservation.identity@,
        entry@.included_files.len() == included.files@.len(),
        entry@.included_files[i].0 == included.files@[i].path@,
        entry@.included_files[i].1 == included.files@[i].sha256@,
        included.patterns matches Some(patterns) ==> entry@.include_patterns == Some(patterns@),
{
}

} // verus!
