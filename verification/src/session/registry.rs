//! The registry of worktrees that were made for sessions, and of those that are being made.

use super::worktree::{quote, Failure, ResolvedPaths};
use crate::paths::{data_directory, data_place, join_path, joined};
use crate::strings::{append_text, chars_of, decimal_text, lines_of, same_text, strip_text_prefix};
use vstd::prelude::*;

verus! {

/// The version of the registry that is read and written.
pub const REGISTRY_VERSION: u32 = 2;

/// Where the registry is stored.
pub fn registry_path(data: &Option<String>, home: &Option<String>, windows: bool) -> (path: String)
    ensures
        path@ == joined(data_place(*data, *home, "cst"@, windows), "worktrees.json"@, windows),
{
    join_path(data_directory(data, home, "cst", windows).as_str(), "worktrees.json", windows)
}

/// A file that was copied into a worktree: its path in it, and the digest of what it held.
#[derive(Debug)]
pub struct IncludedFileState {
    pub path: String,
    pub sha256: String,
}

/// A worktree that was made for a session.
#[derive(Debug)]
pub struct ManagedWorktree {
    pub path: String,
    pub source_repository: String,
    pub common_git_dir: String,
    pub branch: String,
    pub identity: String,
    pub include_patterns: Option<String>,
    pub included_files: Vec<IncludedFileState>,
}

/// A worktree that is being made: its place and its branch are taken from now on.
#[derive(Debug)]
pub struct WorktreeReservation {
    pub identity: String,
    pub path: String,
    pub source_repository: String,
    pub common_git_dir: String,
    pub branch: String,
    pub base_oid: String,
}

/// All worktrees that were made or are being made.
#[derive(Debug)]
pub struct WorktreeRegistry {
    pub version: u32,
    pub worktrees: Vec<ManagedWorktree>,
    pub reservations: Vec<WorktreeReservation>,
}

/// A worktree by its views.
#[verifier::ext_equal]
pub struct WorktreeModel {
    pub path: Seq<char>,
    pub source_repository: Seq<char>,
    pub common_git_dir: Seq<char>,
    pub branch: Seq<char>,
    pub identity: Seq<char>,
    pub include_patterns: Option<Seq<char>>,
    pub included_files: Seq<(Seq<char>, Seq<char>)>,
}

/// A reservation by its views.
#[verifier::ext_equal]
pub struct ReservationModel {
    pub identity: Seq<char>,
    pub path: Seq<char>,
    pub source_repository: Seq<char>,
    pub common_git_dir: Seq<char>,
    pub branch: Seq<char>,
    pub base_oid: Seq<char>,
}

/// A registry by its views.
#[verifier::ext_equal]
pub struct RegistryModel {
    pub version: u32,
    pub worktrees: Seq<WorktreeModel>,
    pub reservations: Seq<ReservationModel>,
}

/// Included files by their views.
pub open spec fn included_views(files: Seq<IncludedFileState>) -> Seq<(Seq<char>, Seq<char>)> {
    files.map_values(|f: IncludedFileState| (f.path@, f.sha256@))
}

/// Worktrees by their views.
pub open spec fn worktree_views(worktrees: Seq<ManagedWorktree>) -> Seq<WorktreeModel> {
    worktrees.map_values(|w: ManagedWorktree| w@)
}

/// Reservations by their views.
pub open spec fn reservation_views(reservations: Seq<WorktreeReservation>) -> Seq<
    ReservationModel,
> {
    reservations.map_values(|r: WorktreeReservation| r@)
}

impl View for ManagedWorktree {
    type V = WorktreeModel;

    open spec fn view(&self) -> WorktreeModel {
        WorktreeModel {
            path: self.path@,
            source_repository: self.source_repository@,
            common_git_dir: self.common_git_dir@,
            branch: self.branch@,
            identity: self.identity@,
            include_patterns: crate::session::process::text_view(self.include_patterns),
            included_files: included_views(self.included_files@),
        }
    }
}

impl View for WorktreeReservation {
    type V = ReservationModel;

    open spec fn view(&self) -> ReservationModel {
        ReservationModel {
            identity: self.identity@,
            path: self.path@,
            source_repository: self.source_repository@,
            common_git_dir: self.common_git_dir@,
            branch: self.branch@,
            base_oid: self.base_oid@,
        }
    }
}

impl View for WorktreeRegistry {
    type V = RegistryModel;

    open spec fn view(&self) -> RegistryModel {
        RegistryModel {
            version: self.version,
            worktrees: worktree_views(self.worktrees@),
            reservations: reservation_views(self.reservations@),
        }
    }
}

impl Clone for WorktreeReservation {
    fn clone(&self) -> (copy: WorktreeReservation)
        ensures
            copy@ == self@,
    {
        WorktreeReservation {
            identity: self.identity.clone(),
            path: self.path.clone(),
            source_repository: self.source_repository.clone(),
            common_git_dir: self.common_git_dir.clone(),
            branch: self.branch.clone(),
            base_oid: self.base_oid.clone(),
        }
    }
}

impl Clone for ManagedWorktree {
    fn clone(&self) -> (copy: ManagedWorktree)
        ensures
            copy@ == self@,
    {
        let mut files: Vec<IncludedFileState> = Vec::new();
        let mut i: usize = 0;
        while i < self.included_files.len()
            invariant
                i <= self.included_files@.len(),
                files@.len() == i,
                forall|j: int|
                    0 <= j < i ==> files@[j].path@ == (#[trigger] self.included_files@[j]).path@
                        && files@[j].sha256@ == self.included_files@[j].sha256@,
            decreases self.included_files@.len() - i,
        {
            files.push(
                IncludedFileState {
                    path: self.included_files[i].path.clone(),
                    sha256: self.included_files[i].sha256.clone(),
                },
            );
            i = i + 1;
        }
        assert(included_views(files@) =~= included_views(self.included_files@));
        ManagedWorktree {
            path: self.path.clone(),
            source_repository: self.source_repository.clone(),
            common_git_dir: self.common_git_dir.clone(),
            branch: self.branch.clone(),
            identity: self.identity.clone(),
            include_patterns: match &self.include_patterns {
                Some(patterns) => Some(patterns.clone()),
                None => None,
            },
            included_files: files,
        }
    }
}

/// Whether two reservations are the same.
pub fn same_reservation(a: &WorktreeReservation, b: &WorktreeReservation) -> (same: bool)
    ensures
        same == (a@ == b@),
{
    same_text(a.identity.as_str(), b.identity.as_str()) && same_text(
        a.path.as_str(),
        b.path.as_str(),
    ) && same_text(a.source_repository.as_str(), b.source_repository.as_str()) && same_text(
        a.common_git_dir.as_str(),
        b.common_git_dir.as_str(),
    ) && same_text(a.branch.as_str(), b.branch.as_str()) && same_text(
        a.base_oid.as_str(),
        b.base_oid.as_str(),
    )
}

fn same_files(a: &Vec<IncludedFileState>, b: &Vec<IncludedFileState>) -> (same: bool)
    ensures
        same == (included_views(a@) == included_views(b@)),
{
    let ghost left = included_views(a@);
    let ghost right = included_views(b@);
    if a.len() != b.len() {
        assert(left.len() != right.len());
        return false;
    }
    let mut i: usize = 0;
    while i < a.len()
        invariant
            i <= a@.len(),
            a@.len() == b@.len(),
            left == included_views(a@),
            right == included_views(b@),
            forall|j: int| 0 <= j < i ==> left[j] == right[j],
        decreases a@.len() - i,
    {
        assert(left[i as int] == (a@[i as int].path@, a@[i as int].sha256@));
        assert(right[i as int] == (b@[i as int].path@, b@[i as int].sha256@));
        if !same_text(a[i].path.as_str(), b[i].path.as_str()) || !same_text(
            a[i].sha256.as_str(),
            b[i].sha256.as_str(),
        ) {
            return false;
        }
        i = i + 1;
    }
    assert(left =~= right);
    true
}

/// Whether two worktrees are the same.
pub fn same_worktree(a: &ManagedWorktree, b: &ManagedWorktree) -> (same: bool)
    ensures
        same == (a@ == b@),
{
    let patterns = match (&a.include_patterns, &b.include_patterns) {
        (Some(x), Some(y)) => same_text(x.as_str(), y.as_str()),
        (None, None) => true,
        _ => false,
    };
    let files = same_files(&a.included_files, &b.included_files);
    patterns && files && same_text(a.path.as_str(), b.path.as_str()) && same_text(
        a.source_repository.as_str(),
        b.source_repository.as_str(),
    ) && same_text(a.common_git_dir.as_str(), b.common_git_dir.as_str()) && same_text(
        a.branch.as_str(),
        b.branch.as_str(),
    ) && same_text(a.identity.as_str(), b.identity.as_str())
}

/// The reservations other than one.
pub open spec fn other_reservations(
    reservations: Seq<ReservationModel>,
    reservation: ReservationModel,
) -> Seq<ReservationModel>
    decreases reservations.len(),
{
    if reservations.len() == 0 {
        Seq::empty()
    } else {
        let before = other_reservations(reservations.drop_last(), reservation);
        if reservations.last() == reservation {
            before
        } else {
            before.push(reservations.last())
        }
    }
}

/// The worktrees other than one.
pub open spec fn other_worktrees(worktrees: Seq<WorktreeModel>, entry: WorktreeModel) -> Seq<
    WorktreeModel,
>
    decreases worktrees.len(),
{
    if worktrees.len() == 0 {
        Seq::empty()
    } else {
        let before = other_worktrees(worktrees.drop_last(), entry);
        if worktrees.last() == entry {
            before
        } else {
            before.push(worktrees.last())
        }
    }
}

/// The worktrees whose directories are there.
pub open spec fn present_worktrees(worktrees: Seq<WorktreeModel>, absent: Seq<Seq<char>>) -> Seq<
    WorktreeModel,
>
    decreases worktrees.len(),
{
    if worktrees.len() == 0 {
        Seq::empty()
    } else {
        let before = present_worktrees(worktrees.drop_last(), absent);
        if absent.contains(worktrees.last().path) {
            before
        } else {
            before.push(worktrees.last())
        }
    }
}

fn without_reservation(
    reservations: &Vec<WorktreeReservation>,
    reservation: &WorktreeReservation,
) -> (kept: Vec<WorktreeReservation>)
    ensures
        reservation_views(kept@) == other_reservations(
            reservation_views(reservations@),
            reservation@,
        ),
{
    let ghost views = reservation_views(reservations@);
    let mut kept: Vec<WorktreeReservation> = Vec::new();
    let mut i: usize = 0;
    assert(reservation_views(kept@) =~= Seq::<ReservationModel>::empty());
    while i < reservations.len()
        invariant
            i <= reservations@.len(),
            views == reservation_views(reservations@),
            reservation_views(kept@) == other_reservations(views.take(i as int), reservation@),
        decreases reservations@.len() - i,
    {
        proof {
            assert(views.take(i + 1).drop_last() == views.take(i as int));
            assert(views.take(i + 1).last() == reservations@[i as int]@);
        }
        if !same_reservation(&reservations[i], reservation) {
            let copy = reservations[i].clone();
            proof {
                assert(reservation_views(kept@.push(copy)) =~= reservation_views(kept@).push(
                    copy@,
                ));
            }
            kept.push(copy);
        }
        i = i + 1;
    }
    assert(views.take(i as int) == views);
    kept
}

fn without_worktree(worktrees: &Vec<ManagedWorktree>, entry: &ManagedWorktree) -> (kept: Vec<
    ManagedWorktree,
>)
    ensures
        worktree_views(kept@) == other_worktrees(worktree_views(worktrees@), entry@),
{
    let ghost views = worktree_views(worktrees@);
    let mut kept: Vec<ManagedWorktree> = Vec::new();
    let mut i: usize = 0;
    assert(worktree_views(kept@) =~= Seq::<WorktreeModel>::empty());
    while i < worktrees.len()
        invariant
            i <= worktrees@.len(),
            views == worktree_views(worktrees@),
            worktree_views(kept@) == other_worktrees(views.take(i as int), entry@),
        decreases worktrees@.len() - i,
    {
        proof {
            assert(views.take(i + 1).drop_last() == views.take(i as int));
            assert(views.take(i + 1).last() == worktrees@[i as int]@);
        }
        if !same_worktree(&worktrees[i], entry) {
            let copy = worktrees[i].clone();
            proof {
                assert(worktree_views(kept@.push(copy)) =~= worktree_views(kept@).push(copy@));
            }
            kept.push(copy);
        }
        i = i + 1;
    }
    assert(views.take(i as int) == views);
    kept
}

/// Whether a text is among others.
pub fn is_among(texts: &Vec<String>, text: &str) -> (r: bool)
    ensures
        r == crate::strings::text_views(texts@).contains(text@),
{
    let ghost views = crate::strings::text_views(texts@);
    let mut i: usize = 0;
    while i < texts.len()
        invariant
            i <= texts@.len(),
            views == crate::strings::text_views(texts@),
            forall|j: int| 0 <= j < i ==> #[trigger] views[j] != text@,
        decreases texts@.len() - i,
    {
        assert(views[i as int] == texts@[i as int]@);
        if same_text(texts[i].as_str(), text) {
            return true;
        }
        i = i + 1;
    }
    false
}

/// The message that a registry has a version other than the one that is known.
pub open spec fn unsupported_version(version: u32, path: Seq<char>) -> Seq<char> {
    quoted_version(version) + path
}

/// The start of that message.
pub open spec fn quoted_version(version: u32) -> Seq<char> {
    super::worktree::quoted(
        "Unsupported worktree registry version "@,
        crate::strings::decimal(version as nat),
        " in "@,
    )
}

/// A registry as it was read, without the worktrees whose directories are gone. `absent` are the
/// paths that were seen to be. The flag says whether it is to be written back.
pub fn load_registry(
    read: Option<WorktreeRegistry>,
    registry_path: &str,
    absent: &Vec<String>,
) -> (r: Result<(WorktreeRegistry, bool), Failure>)
    ensures
        match read {
            None => {
                &&& r matches Ok((registry, changed))
                &&& registry@ == (RegistryModel {
                    version: REGISTRY_VERSION,
                    worktrees: Seq::empty(),
                    reservations: Seq::empty(),
                })
                &&& !changed
            },
            Some(stored) => if stored.version != REGISTRY_VERSION {
                r matches Err(failure) && failure@ == seq![
                    unsupported_version(stored.version, registry_path@),
                ]
            } else {
                &&& r matches Ok((registry, changed))
                &&& registry@ == (RegistryModel {
                    worktrees: present_worktrees(
                        stored@.worktrees,
                        crate::strings::text_views(absent@),
                    ),
                    ..stored@
                })
                &&& changed == (registry@.worktrees.len() != stored@.worktrees.len())
            },
        },
{
    let stored = match read {
        None => {
            let registry = WorktreeRegistry {
                version: REGISTRY_VERSION,
                worktrees: Vec::new(),
                reservations: Vec::new(),
            };
            proof {
                assert(registry@.worktrees =~= Seq::<WorktreeModel>::empty());
                assert(registry@.reservations =~= Seq::<ReservationModel>::empty());
            }
            return Ok((registry, false));
        },
        Some(stored) => stored,
    };
    if stored.version != REGISTRY_VERSION {
        let number = decimal_text(stored.version as u64);
        let mut message = quote("Unsupported worktree registry version ", number.as_str(), " in ");
        append_text(&mut message, registry_path);
        return Err(Failure::of(message));
    }
    let ghost views = worktree_views(stored.worktrees@);
    let mut kept: Vec<ManagedWorktree> = Vec::new();
    let mut i: usize = 0;
    assert(worktree_views(kept@) =~= Seq::<WorktreeModel>::empty());
    while i < stored.worktrees.len()
        invariant
            i <= stored.worktrees@.len(),
            views == worktree_views(stored.worktrees@),
            worktree_views(kept@) == present_worktrees(
                views.take(i as int),
                crate::strings::text_views(absent@),
            ),
        decreases stored.worktrees@.len() - i,
    {
        proof {
            assert(views.take(i + 1).drop_last() == views.take(i as int));
            assert(views.take(i + 1).last() == stored.worktrees@[i as int]@);
        }
        if !is_among(absent, stored.worktrees[i].path.as_str()) {
            let copy = stored.worktrees[i].clone();
            proof {
                assert(worktree_views(kept@.push(copy)) =~= worktree_views(kept@).push(copy@));
            }
            kept.push(copy);
        }
        i = i + 1;
    }
    assert(views.take(i as int) == views);
    let changed = kept.len() != stored.worktrees.len();
    Ok(
        (
            WorktreeRegistry {
                version: stored.version,
                worktrees: kept,
                reservations: stored.reservations,
            },
            changed,
        ),
    )
}

/// The position of the first worktree at a place, or the end.
pub open spec fn place_position(
    worktrees: Seq<WorktreeModel>,
    key: Seq<char>,
    paths: ResolvedPaths,
    from: int,
) -> int
    decreases worktrees.len() - from,
{
    if 0 <= from < worktrees.len() && paths.key(worktrees[from].path) != key {
        place_position(worktrees, key, paths, from + 1)
    } else {
        from
    }
}

/// The registered worktree at a place.
pub open spec fn registered_at(registry: RegistryModel, path: Seq<char>, paths: ResolvedPaths) -> Option<
    WorktreeModel,
> {
    let i = place_position(registry.worktrees, paths.key(path), paths, 0);
    if i < registry.worktrees.len() {
        Some(registry.worktrees[i])
    } else {
        None
    }
}

/// The worktree that was made for sessions in a directory.
pub fn managed_worktree_for_cwd(
    registry: &WorktreeRegistry,
    cwd: &str,
    paths: &ResolvedPaths,
) -> (entry: Option<ManagedWorktree>)
    ensures
        match entry {
            Some(e) => registered_at(registry@, cwd@, *paths) == Some(e@),
            None => registered_at(registry@, cwd@, *paths) is None,
        },
{
    let key = paths.path_key(cwd);
    let ghost views = registry@.worktrees;
    let mut i: usize = 0;
    while i < registry.worktrees.len()
        invariant
            i <= registry.worktrees@.len(),
            views == registry@.worktrees,
            key@ == paths.key(cwd@),
            place_position(views, key@, *paths, 0) == place_position(views, key@, *paths, i as int),
        decreases registry.worktrees@.len() - i,
    {
        assert(views[i as int] == registry.worktrees@[i as int]@);
        let own = paths.path_key(registry.worktrees[i].path.as_str());
        if same_text(own.as_str(), key.as_str()) {
            return Some(registry.worktrees[i].clone());
        }
        i = i + 1;
    }
    None
}

/// Whether a place is taken in the registry.
pub open spec fn place_taken(registry: RegistryModel, key: Seq<char>, paths: ResolvedPaths) -> bool {
    ||| exists|i: int|
        0 <= i < registry.worktrees.len() && paths.key((#[trigger] registry.worktrees[i]).path) == key
    ||| exists|i: int|
        0 <= i < registry.reservations.len() && paths.key(
            (#[trigger] registry.reservations[i]).path,
        ) == key
}

/// Whether a branch of a repository is taken in the registry.
pub open spec fn branch_taken(
    registry: RegistryModel,
    common_key: Seq<char>,
    branch: Seq<char>,
    paths: ResolvedPaths,
) -> bool {
    ||| exists|i: int|
        0 <= i < registry.worktrees.len() && paths.key(
            (#[trigger] registry.worktrees[i]).common_git_dir,
        ) == common_key && registry.worktrees[i].branch == branch
    ||| exists|i: int|
        0 <= i < registry.reservations.len() && paths.key(
            (#[trigger] registry.reservations[i]).common_git_dir,
        ) == common_key && registry.reservations[i].branch == branch
}

/// Whether Git lists a worktree at a place.
pub open spec fn lists_place(lines: Seq<Seq<char>>, key: Seq<char>, paths: ResolvedPaths) -> bool {
    exists|i: int|
        0 <= i < lines.len() && crate::strings::has_prefix(#[trigger] lines[i], "worktree "@)
            && paths.key(lines[i].skip(9)) == key
}

fn is_place_taken(registry: &WorktreeRegistry, key: &str, paths: &ResolvedPaths) -> (r: bool)
    ensures
        r == place_taken(registry@, key@, *paths),
{
    let ghost worktrees = registry@.worktrees;
    let ghost reservations = registry@.reservations;
    let mut i: usize = 0;
    while i < registry.worktrees.len()
        invariant
            i <= registry.worktrees@.len(),
            worktrees == registry@.worktrees,
            forall|j: int| 0 <= j < i ==> paths.key((#[trigger] worktrees[j]).path) != key@,
        decreases registry.worktrees@.len() - i,
    {
        assert(worktrees[i as int] == registry.worktrees@[i as int]@);
        let own = paths.path_key(registry.worktrees[i].path.as_str());
        if same_text(own.as_str(), key) {
            assert(place_taken(registry@, key@, *paths));
            return true;
        }
        i = i + 1;
    }
    let mut k: usize = 0;
    while k < registry.reservations.len()
        invariant
            k <= registry.reservations@.len(),
            reservations == registry@.reservations,
            forall|j: int| 0 <= j < k ==> paths.key((#[trigger] reservations[j]).path) != key@,
        decreases registry.reservations@.len() - k,
    {
        assert(reservations[k as int] == registry.reservations@[k as int]@);
        let own = paths.path_key(registry.reservations[k].path.as_str());
        if same_text(own.as_str(), key) {
            assert(place_taken(registry@, key@, *paths));
            return true;
        }
        k = k + 1;
    }
    false
}

fn is_branch_taken(
    registry: &WorktreeRegistry,
    common_key: &str,
    branch: &str,
    paths: &ResolvedPaths,
) -> (r: bool)
    ensures
        r == branch_taken(registry@, common_key@, branch@, *paths),
{
    let ghost worktrees = registry@.worktrees;
    let ghost reservations = registry@.reservations;
    let mut i: usize = 0;
    while i < registry.worktrees.len()
        invariant
            i <= registry.worktrees@.len(),
            worktrees == registry@.worktrees,
            forall|j: int|
                0 <= j < i ==> !(paths.key((#[trigger] worktrees[j]).common_git_dir) == common_key@
                    && worktrees[j].branch == branch@),
        decreases registry.worktrees@.len() - i,
    {
        assert(worktrees[i as int] == registry.worktrees@[i as int]@);
        let own = paths.path_key(registry.worktrees[i].common_git_dir.as_str());
        if same_text(own.as_str(), common_key) && same_text(
            registry.worktrees[i].branch.as_str(),
            branch,
        ) {
            assert(branch_taken(registry@, common_key@, branch@, *paths));
            return true;
        }
        i = i + 1;
    }
    let mut k: usize = 0;
    while k < registry.reservations.len()
        invariant
            k <= registry.reservations@.len(),
            reservations == registry@.reservations,
            forall|j: int|
                0 <= j < k ==> !(paths.key((#[trigger] reservations[j]).common_git_dir)
                    == common_key@ && reservations[j].branch == branch@),
        decreases registry.reservations@.len() - k,
    {
        assert(reservations[k as int] == registry.reservations@[k as int]@);
        let own = paths.path_key(registry.reservations[k].common_git_dir.as_str());
        if same_text(own.as_str(), common_key) && same_text(
            registry.reservations[k].branch.as_str(),
            branch,
        ) {
            assert(branch_taken(registry@, common_key@, branch@, *paths));
            return true;
        }
        k = k + 1;
    }
    false
}

fn is_listed(listing: &str, key: &str, paths: &ResolvedPaths) -> (r: bool)
    ensures
        r == lists_place(crate::strings::lines(listing@), key@, *paths),
{
    proof {
        reveal_strlit("worktree ");
    }
    let lines = lines_of(&chars_of(listing));
    let ghost views = crate::strings::text_views(lines@);
    let mut i: usize = 0;
    while i < lines.len()
        invariant
            i <= lines@.len(),
            "worktree "@.len() == 9,
            views == crate::strings::text_views(lines@),
            views == crate::strings::lines(listing@),
            forall|j: int|
                0 <= j < i ==> !(crate::strings::has_prefix(#[trigger] views[j], "worktree "@)
                    && paths.key(views[j].skip(9)) == key@),
        decreases lines@.len() - i,
    {
        assert(views[i as int] == lines@[i as int]@);
        if let Some(listed) = strip_text_prefix(lines[i].as_str(), "worktree ") {
            let own = paths.path_key(listed.as_str());
            if same_text(own.as_str(), key) {
                return true;
            }
        }
        i = i + 1;
    }
    false
}

/// Why a worktree cannot be reserved. `exists` says whether there is anything at its place, and
/// `listing` is what Git printed of the worktrees of its repository.
pub open spec fn reservation_refusal(
    registry: RegistryModel,
    reservation: ReservationModel,
    exists: bool,
    listing: Result<Seq<char>, Seq<Seq<char>>>,
    paths: ResolvedPaths,
) -> Option<Seq<Seq<char>>> {
    let key = paths.key(reservation.path);
    if exists {
        Some(seq!["Worktree path already exists: "@ + reservation.path])
    } else {
        match listing {
            Err(failure) => Some(failure),
            Ok(text) => if lists_place(crate::strings::lines(text), key, paths) {
                Some(seq!["Git already has a worktree at "@ + reservation.path])
            } else if place_taken(registry, key, paths) {
                Some(seq!["The worktree registry already contains "@ + reservation.path])
            } else if branch_taken(
                registry,
                paths.key(reservation.common_git_dir),
                reservation.branch,
                paths,
            ) {
                Some(
                    seq![
                        super::worktree::quoted(
                            "The worktree registry already reserves branch '"@,
                            reservation.branch,
                            "'"@,
                        ),
                    ],
                )
            } else {
                None
            },
        }
    }
}

fn named_failure(message: &str, path: &str) -> (failure: Failure)
    ensures
        failure@ == seq![message@ + path@],
{
    let mut text = message.to_owned();
    append_text(&mut text, path);
    Failure::of(text)
}

/// Reserves the place and the branch of a worktree that is to be made.
pub fn reserve_creation(
    registry: &mut WorktreeRegistry,
    reservation: &WorktreeReservation,
    exists: bool,
    listing: Result<String, Failure>,
    paths: &ResolvedPaths,
) -> (r: Result<(), Failure>)
    ensures
        ({
            let refusal = reservation_refusal(
                old(registry)@,
                reservation@,
                exists,
                super::worktree::text_outcome(listing),
                *paths,
            );
            match r {
                Ok(_) => refusal is None && final(registry)@ == (RegistryModel {
                    reservations: old(registry)@.reservations.push(reservation@),
                    ..old(registry)@
                }),
                Err(failure) => refusal == Some(failure@) && final(registry)@ == old(registry)@,
            }
        }),
{
    if exists {
        return Err(named_failure("Worktree path already exists: ", reservation.path.as_str()));
    }
    let text = match listing {
        Ok(text) => text,
        Err(failure) => return Err(failure),
    };
    let key = paths.path_key(reservation.path.as_str());
    if is_listed(text.as_str(), key.as_str(), paths) {
        return Err(named_failure("Git already has a worktree at ", reservation.path.as_str()));
    }
    if is_place_taken(registry, key.as_str(), paths) {
        return Err(
            named_failure("The worktree registry already contains ", reservation.path.as_str()),
        );
    }
    let common = paths.path_key(reservation.common_git_dir.as_str());
    if is_branch_taken(registry, common.as_str(), reservation.branch.as_str(), paths) {
        return Err(
            Failure::of(
                quote(
                    "The worktree registry already reserves branch '",
                    reservation.branch.as_str(),
                    "'",
                ),
            ),
        );
    }
    let copy = reservation.clone();
    proof {
        assert(reservation_views(registry.reservations@.push(copy)) =~= reservation_views(
            registry.reservations@,
        ).push(copy@));
    }
    registry.reservations.push(copy);
    Ok(())
}

fn is_reserved(registry: &WorktreeRegistry, reservation: &WorktreeReservation) -> (r: bool)
    ensures
        r == registry@.reservations.contains(reservation@),
{
    let ghost views = registry@.reservations;
    let mut i: usize = 0;
    while i < registry.reservations.len()
        invariant
            i <= registry.reservations@.len(),
            views == registry@.reservations,
            forall|j: int| 0 <= j < i ==> #[trigger] views[j] != reservation@,
        decreases registry.reservations@.len() - i,
    {
        assert(views[i as int] == registry.reservations@[i as int]@);
        if same_reservation(&registry.reservations[i], reservation) {
            return true;
        }
        i = i + 1;
    }
    false
}

/// Whether a reservation is in the registry.
pub fn holds_reservation(registry: &WorktreeRegistry, reservation: &WorktreeReservation) -> (r: bool)
    ensures
        r == registry@.reservations.contains(reservation@),
{
    is_reserved(registry, reservation)
}

/// Why a worktree cannot be registered. `identity` says whether it was found to be the one it should
/// be.
pub open spec fn registration_refusal(
    registry: RegistryModel,
    reservation: ReservationModel,
    entry: WorktreeModel,
    identity: Result<Seq<char>, Seq<Seq<char>>>,
    paths: ResolvedPaths,
) -> Option<Seq<Seq<char>>> {
    if !registry.reservations.contains(reservation) {
        Some(seq!["Creation reservation ownership changed; refusing registration"@])
    } else if registered_at(registry, entry.path, paths) is Some {
        Some(seq!["Worktree is already registered: "@ + entry.path])
    } else {
        match identity {
            Err(failure) => Some(failure),
            Ok(_) => None,
        }
    }
}

/// Registers a worktree that was reserved.
pub fn finalize_creation(
    registry: &mut WorktreeRegistry,
    reservation: &WorktreeReservation,
    entry: &ManagedWorktree,
    identity: Result<String, Failure>,
    paths: &ResolvedPaths,
) -> (r: Result<(), Failure>)
    ensures
        ({
            let refusal = registration_refusal(
                old(registry)@,
                reservation@,
                entry@,
                super::worktree::text_outcome(identity),
                *paths,
            );
            match r {
                Ok(_) => refusal is None && final(registry)@ == (RegistryModel {
                    worktrees: old(registry)@.worktrees.push(entry@),
                    reservations: other_reservations(old(registry)@.reservations, reservation@),
                    ..old(registry)@
                }),
                Err(failure) => refusal == Some(failure@) && final(registry)@ == old(registry)@,
            }
        }),
{
    if !is_reserved(registry, reservation) {
        return Err(
            Failure::of(
                "Creation reservation ownership changed; refusing registration".to_owned(),
            ),
        );
    }
    if managed_worktree_for_cwd(registry, entry.path.as_str(), paths).is_some() {
        return Err(named_failure("Worktree is already registered: ", entry.path.as_str()));
    }
    if let Err(failure) = identity {
        return Err(failure);
    }
    registry.reservations = without_reservation(&registry.reservations, reservation);
    let copy = entry.clone();
    proof {
        assert(worktree_views(registry.worktrees@.push(copy)) =~= worktree_views(
            registry.worktrees@,
        ).push(copy@));
    }
    registry.worktrees.push(copy);
    Ok(())
}

proof fn lemma_others_len(reservations: Seq<ReservationModel>, reservation: ReservationModel)
    ensures
        other_reservations(reservations, reservation).len() <= reservations.len(),
        (other_reservations(reservations, reservation).len() == reservations.len())
            == !reservations.contains(reservation),
        !reservations.contains(reservation) ==> other_reservations(reservations, reservation)
            == reservations,
    decreases reservations.len(),
{
    if reservations.len() > 0 {
        let shorter = reservations.drop_last();
        lemma_others_len(shorter, reservation);
        assert(reservations =~= shorter.push(reservations.last()));
        if shorter.contains(reservation) {
            let i = choose|i: int| 0 <= i < shorter.len() && shorter[i] == reservation;
            assert(reservations[i] == reservation);
        }
        if reservations.last() == reservation {
            assert(reservations[reservations.len() - 1] == reservation);
        } else if reservations.contains(reservation) {
            let i = choose|i: int| 0 <= i < reservations.len() && reservations[i] == reservation;
            assert(shorter[i] == reservation);
        } else {
            assert(!shorter.contains(reservation));
        }
    } else {
        assert(other_reservations(reservations, reservation) =~= reservations);
    }
}

proof fn lemma_other_worktrees_len(worktrees: Seq<WorktreeModel>, entry: WorktreeModel)
    ensures
        other_worktrees(worktrees, entry).len() <= worktrees.len(),
        (other_worktrees(worktrees, entry).len() == worktrees.len()) == !worktrees.contains(entry),
        !worktrees.contains(entry) ==> other_worktrees(worktrees, entry) == worktrees,
    decreases worktrees.len(),
{
    if worktrees.len() > 0 {
        let shorter = worktrees.drop_last();
        lemma_other_worktrees_len(shorter, entry);
        assert(worktrees =~= shorter.push(worktrees.last()));
        if shorter.contains(entry) {
            let i = choose|i: int| 0 <= i < shorter.len() && shorter[i] == entry;
            assert(worktrees[i] == entry);
        }
        if worktrees.last() == entry {
            assert(worktrees[worktrees.len() - 1] == entry);
        } else if worktrees.contains(entry) {
            let i = choose|i: int| 0 <= i < worktrees.len() && worktrees[i] == entry;
            assert(shorter[i] == entry);
        } else {
            assert(!shorter.contains(entry));
        }
    } else {
        assert(other_worktrees(worktrees, entry) =~= worktrees);
    }
}

/// Gives a reservation up. One that is not in the registry any more is not ours to give up.
pub fn release_reservation(
    registry: &mut WorktreeRegistry,
    reservation: &WorktreeReservation,
) -> (r: Result<(), Failure>)
    ensures
        match r {
            Ok(_) => old(registry)@.reservations.contains(reservation@) && final(registry)@ == (
            RegistryModel {
                reservations: other_reservations(old(registry)@.reservations, reservation@),
                ..old(registry)@
            }),
            Err(failure) => !old(registry)@.reservations.contains(reservation@) && failure@ == seq![
                "Creation reservation ownership changed; refusing cleanup"@,
            ] && final(registry)@ == old(registry)@,
        },
{
    if !is_reserved(registry, reservation) {
        return Err(
            Failure::of("Creation reservation ownership changed; refusing cleanup".to_owned()),
        );
    }
    registry.reservations = without_reservation(&registry.reservations, reservation);
    Ok(())
}

/// Takes a worktree out of the registry. The flag says whether it was in it, so that the registry is
/// to be written.
pub fn unregister(registry: &mut WorktreeRegistry, entry: &ManagedWorktree) -> (changed: bool)
    ensures
        changed == old(registry)@.worktrees.contains(entry@),
        final(registry)@ == (RegistryModel {
            worktrees: other_worktrees(old(registry)@.worktrees, entry@),
            ..old(registry)@
        }),
{
    let before: usize = registry.worktrees.len();
    proof {
        lemma_other_worktrees_len(registry@.worktrees, entry@);
    }
    registry.worktrees = without_worktree(&registry.worktrees, entry);
    let after: usize = registry.worktrees.len();
    assert(after == other_worktrees(old(registry)@.worktrees, entry@).len());
    after != before
}

/// Whether two claims, each on a place and on a branch of a repository, leave each other alone.
pub open spec fn apart(
    a: (Seq<char>, Seq<char>, Seq<char>),
    b: (Seq<char>, Seq<char>, Seq<char>),
) -> bool {
    a.0 != b.0 && !(a.1 == b.1 && a.2 == b.2)
}

/// What a worktree lays claim to.
pub open spec fn worktree_claim(entry: WorktreeModel, paths: ResolvedPaths) -> (
    Seq<char>,
    Seq<char>,
    Seq<char>,
) {
    (paths.key(entry.path), paths.key(entry.common_git_dir), entry.branch)
}

/// What a reservation lays claim to.
pub open spec fn reservation_claim(reservation: ReservationModel, paths: ResolvedPaths) -> (
    Seq<char>,
    Seq<char>,
    Seq<char>,
) {
    (paths.key(reservation.path), paths.key(reservation.common_git_dir), reservation.branch)
}

/// Whether no place, and no branch of a repository, is claimed twice in a registry.
pub open spec fn sound(registry: RegistryModel, paths: ResolvedPaths) -> bool {
    &&& forall|i: int, j: int|
        0 <= i < j < registry.worktrees.len() ==> apart(
            worktree_claim(#[trigger] registry.worktrees[i], paths),
            worktree_claim(#[trigger] registry.worktrees[j], paths),
        )
    &&& forall|i: int, j: int|
        0 <= i < j < registry.reservations.len() ==> apart(
            reservation_claim(#[trigger] registry.reservations[i], paths),
            reservation_claim(#[trigger] registry.reservations[j], paths),
        )
    &&& forall|i: int, j: int|
        0 <= i < registry.worktrees.len() && 0 <= j < registry.reservations.len() ==> apart(
            worktree_claim(#[trigger] registry.worktrees[i], paths),
            reservation_claim(#[trigger] registry.reservations[j], paths),
        )
}

/// A reservation that is not refused claims nothing twice.
pub proof fn law_reserving_keeps_the_registry_sound(
    registry: RegistryModel,
    reservation: ReservationModel,
    exists: bool,
    listing: Result<Seq<char>, Seq<Seq<char>>>,
    paths: ResolvedPaths,
)
    requires
        sound(registry, paths),
        reservation_refusal(registry, reservation, exists, listing, paths) is None,
    ensures
        sound(
            RegistryModel { reservations: registry.reservations.push(reservation), ..registry },
            paths,
        ),
{
    let key = paths.key(reservation.path);
    let common = paths.key(reservation.common_git_dir);
    assert(!place_taken(registry, key, paths));
    assert(!branch_taken(registry, common, reservation.branch, paths));
    let after = RegistryModel {
        reservations: registry.reservations.push(reservation),
        ..registry
    };
    assert forall|i: int, j: int| 0 <= i < j < after.reservations.len() implies apart(
        reservation_claim(#[trigger] after.reservations[i], paths),
        reservation_claim(#[trigger] after.reservations[j], paths),
    ) by {
        assert(after.reservations[i] == registry.reservations[i]);
        if j < registry.reservations.len() {
            assert(after.reservations[j] == registry.reservations[j]);
        }
    }
    assert forall|i: int, j: int|
        0 <= i < after.worktrees.len() && 0 <= j < after.reservations.len() implies apart(
        worktree_claim(#[trigger] after.worktrees[i], paths),
        reservation_claim(#[trigger] after.reservations[j], paths),
    ) by {
        assert(after.worktrees[i] == registry.worktrees[i]);
        if j < registry.reservations.len() {
            assert(after.reservations[j] == registry.reservations[j]);
        }
    }
}

proof fn lemma_other_reservations(
    reservations: Seq<ReservationModel>,
    reservation: ReservationModel,
    paths: ResolvedPaths,
)
    requires
        forall|i: int, j: int|
            0 <= i < j < reservations.len() ==> apart(
                reservation_claim(#[trigger] reservations[i], paths),
                reservation_claim(#[trigger] reservations[j], paths),
            ),
    ensures
        forall|i: int|
            0 <= i < other_reservations(reservations, reservation).len() ==> reservations.contains(
                #[trigger] other_reservations(reservations, reservation)[i],
            ) && other_reservations(reservations, reservation)[i] != reservation,
        forall|i: int, j: int|
            0 <= i < j < other_reservations(reservations, reservation).len() ==> apart(
                reservation_claim(
                    #[trigger] other_reservations(reservations, reservation)[i],
                    paths,
                ),
                reservation_claim(
                    #[trigger] other_reservations(reservations, reservation)[j],
                    paths,
                ),
            ),
    decreases reservations.len(),
{
    if reservations.len() > 0 {
        let shorter = reservations.drop_last();
        let last = reservations.last();
        assert forall|i: int, j: int| 0 <= i < j < shorter.len() implies apart(
            reservation_claim(#[trigger] shorter[i], paths),
            reservation_claim(#[trigger] shorter[j], paths),
        ) by {
            assert(shorter[i] == reservations[i] && shorter[j] == reservations[j]);
        }
        lemma_other_reservations(shorter, reservation, paths);
        let before = other_reservations(shorter, reservation);
        let whole = other_reservations(reservations, reservation);
        assert forall|i: int| 0 <= i < whole.len() implies reservations.contains(
            #[trigger] whole[i],
        ) && whole[i] != reservation by {
            if i < before.len() {
                assert(whole[i] == before[i]);
                let k = choose|k: int| 0 <= k < shorter.len() && shorter[k] == before[i];
                assert(reservations[k] == whole[i]);
            } else {
                assert(reservations[reservations.len() - 1] == whole[i]);
            }
        }
        assert forall|i: int, j: int| 0 <= i < j < whole.len() implies apart(
            reservation_claim(#[trigger] whole[i], paths),
            reservation_claim(#[trigger] whole[j], paths),
        ) by {
            assert(whole[i] == before[i]);
            if j < before.len() {
                assert(whole[j] == before[j]);
            } else {
                let k = choose|k: int| 0 <= k < shorter.len() && shorter[k] == before[i];
                assert(reservations[k] == whole[i]);
                assert(reservations[reservations.len() - 1] == whole[j]);
            }
        }
    }
}

/// Giving a reservation up leaves nothing claimed twice.
pub proof fn law_releasing_keeps_the_registry_sound(
    registry: RegistryModel,
    reservation: ReservationModel,
    paths: ResolvedPaths,
)
    requires
        sound(registry, paths),
    ensures
        sound(
            RegistryModel {
                reservations: other_reservations(registry.reservations, reservation),
                ..registry
            },
            paths,
        ),
{
    lemma_other_reservations(registry.reservations, reservation, paths);
    let others = other_reservations(registry.reservations, reservation);
    assert forall|i: int, j: int|
        0 <= i < registry.worktrees.len() && 0 <= j < others.len() implies apart(
        worktree_claim(#[trigger] registry.worktrees[i], paths),
        reservation_claim(#[trigger] others[j], paths),
    ) by {
        let k = choose|k: int|
            0 <= k < registry.reservations.len() && registry.reservations[k] == others[j];
        assert(registry.reservations[k] == others[j]);
    }
}

/// Registering a worktree under what was reserved for it leaves nothing claimed twice.
pub proof fn law_registering_keeps_the_registry_sound(
    registry: RegistryModel,
    reservation: ReservationModel,
    entry: WorktreeModel,
    paths: ResolvedPaths,
)
    requires
        sound(registry, paths),
        registry.reservations.contains(reservation),
        entry.path == reservation.path,
        entry.common_git_dir == reservation.common_git_dir,
        entry.branch == reservation.branch,
    ensures
        sound(
            RegistryModel {
                worktrees: registry.worktrees.push(entry),
                reservations: other_reservations(registry.reservations, reservation),
                ..registry
            },
            paths,
        ),
{
    law_releasing_keeps_the_registry_sound(registry, reservation, paths);
    lemma_other_reservations(registry.reservations, reservation, paths);
    let others = other_reservations(registry.reservations, reservation);
    let after = RegistryModel {
        worktrees: registry.worktrees.push(entry),
        reservations: others,
        ..registry
    };
    let at = choose|k: int|
        0 <= k < registry.reservations.len() && registry.reservations[k] == reservation;
    assert(registry.reservations[at] == reservation);
    assert(worktree_claim(entry, paths) == reservation_claim(reservation, paths));
    assert forall|i: int, j: int| 0 <= i < j < after.worktrees.len() implies apart(
        worktree_claim(#[trigger] after.worktrees[i], paths),
        worktree_claim(#[trigger] after.worktrees[j], paths),
    ) by {
        assert(after.worktrees[i] == registry.worktrees[i]);
        if j < registry.worktrees.len() {
            assert(after.worktrees[j] == registry.worktrees[j]);
        } else {
            assert(apart(
                worktree_claim(registry.worktrees[i], paths),
                reservation_claim(registry.reservations[at], paths),
            ));
        }
    }
    assert forall|i: int, j: int|
        0 <= i < after.worktrees.len() && 0 <= j < after.reservations.len() implies apart(
        worktree_claim(#[trigger] after.worktrees[i], paths),
        reservation_claim(#[trigger] after.reservations[j], paths),
    ) by {
        let k = choose|k: int|
            0 <= k < registry.reservations.len() && registry.reservations[k] == others[j];
        assert(registry.reservations[k] == others[j]);
        if i < registry.worktrees.len() {
            assert(after.worktrees[i] == registry.worktrees[i]);
        } else {
            assert(k != at);
            if k < at {
                assert(apart(
                    reservation_claim(registry.reservations[k], paths),
                    reservation_claim(registry.reservations[at], paths),
                ));
            } else {
                assert(apart(
                    reservation_claim(registry.reservations[at], paths),
                    reservation_claim(registry.reservations[k], paths),
                ));
            }
        }
    }
}

proof fn lemma_subset_worktrees(
    worktrees: Seq<WorktreeModel>,
    kept: Seq<WorktreeModel>,
    entry: WorktreeModel,
    paths: ResolvedPaths,
)
    requires
        kept == other_worktrees(worktrees, entry),
        forall|i: int, j: int|
            0 <= i < j < worktrees.len() ==> apart(
                worktree_claim(#[trigger] worktrees[i], paths),
                worktree_claim(#[trigger] worktrees[j], paths),
            ),
    ensures
        forall|i: int| 0 <= i < kept.len() ==> worktrees.contains(#[trigger] kept[i]),
        forall|i: int, j: int|
            0 <= i < j < kept.len() ==> apart(
                worktree_claim(#[trigger] kept[i], paths),
                worktree_claim(#[trigger] kept[j], paths),
            ),
    decreases worktrees.len(),
{
    if worktrees.len() > 0 {
        let shorter = worktrees.drop_last();
        assert forall|i: int, j: int| 0 <= i < j < shorter.len() implies apart(
            worktree_claim(#[trigger] shorter[i], paths),
            worktree_claim(#[trigger] shorter[j], paths),
        ) by {
            assert(shorter[i] == worktrees[i] && shorter[j] == worktrees[j]);
        }
        let before = other_worktrees(shorter, entry);
        lemma_subset_worktrees(shorter, before, entry, paths);
        assert forall|i: int| 0 <= i < kept.len() implies worktrees.contains(#[trigger] kept[i]) by {
            if i < before.len() {
                assert(kept[i] == before[i]);
                let k = choose|k: int| 0 <= k < shorter.len() && shorter[k] == before[i];
                assert(worktrees[k] == kept[i]);
            } else {
                assert(worktrees[worktrees.len() - 1] == kept[i]);
            }
        }
        assert forall|i: int, j: int| 0 <= i < j < kept.len() implies apart(
            worktree_claim(#[trigger] kept[i], paths),
            worktree_claim(#[trigger] kept[j], paths),
        ) by {
            assert(kept[i] == before[i]);
            if j < before.len() {
                assert(kept[j] == before[j]);
            } else {
                let k = choose|k: int| 0 <= k < shorter.len() && shorter[k] == before[i];
                assert(worktrees[k] == kept[i]);
                assert(worktrees[worktrees.len() - 1] == kept[j]);
            }
        }
    }
}

/// Taking a worktree out of the registry leaves nothing claimed twice.
pub proof fn law_unregistering_keeps_the_registry_sound(
    registry: RegistryModel,
    entry: WorktreeModel,
    paths: ResolvedPaths,
)
    requires
        sound(registry, paths),
    ensures
        sound(
            RegistryModel {
                worktrees: other_worktrees(registry.worktrees, entry),
                ..registry
            },
            paths,
        ),
{
    let kept = other_worktrees(registry.worktrees, entry);
    lemma_subset_worktrees(registry.worktrees, kept, entry, paths);
    assert forall|i: int, j: int|
        0 <= i < kept.len() && 0 <= j < registry.reservations.len() implies apart(
        worktree_claim(#[trigger] kept[i], paths),
        reservation_claim(#[trigger] registry.reservations[j], paths),
    ) by {
        let k = choose|k: int|
            0 <= k < registry.worktrees.len() && registry.worktrees[k] == kept[i];
        assert(registry.worktrees[k] == kept[i]);
    }
}

/// Whether a reservation asks for the place of another, or for its branch in the same repository.
pub open spec fn asks_for_the_same(
    a: ReservationModel,
    b: ReservationModel,
    paths: ResolvedPaths,
) -> bool {
    paths.key(a.path) == paths.key(b.path) || (paths.key(a.common_git_dir) == paths.key(
        b.common_git_dir,
    ) && a.branch == b.branch)
}

/// While a registry holds a reservation, or the worktree that came of it, nobody else gets its place
/// or its branch, whatever is on disk and whatever Git lists.
pub proof fn law_a_second_reservation_is_refused(
    registry: RegistryModel,
    held: ReservationModel,
    second: ReservationModel,
    exists: bool,
    listing: Result<Seq<char>, Seq<Seq<char>>>,
    paths: ResolvedPaths,
)
    requires
        registry.reservations.contains(held) || exists|i: int|
            0 <= i < registry.worktrees.len() && (#[trigger] registry.worktrees[i]).path
                == held.path && registry.worktrees[i].common_git_dir == held.common_git_dir
                && registry.worktrees[i].branch == held.branch,
        asks_for_the_same(second, held, paths),
    ensures
        reservation_refusal(registry, second, exists, listing, paths) is Some,
{
    let key = paths.key(second.path);
    let common = paths.key(second.common_git_dir);
    if registry.reservations.contains(held) {
        let i = choose|i: int|
            0 <= i < registry.reservations.len() && registry.reservations[i] == held;
        assert(registry.reservations[i] == held);
    } else {
        let i = choose|i: int|
            0 <= i < registry.worktrees.len() && (#[trigger] registry.worktrees[i]).path
                == held.path && registry.worktrees[i].common_git_dir == held.common_git_dir
                && registry.worktrees[i].branch == held.branch;
        assert(registry.worktrees[i].path == held.path);
    }
    assert(place_taken(registry, key, paths) || branch_taken(
        registry,
        common,
        second.branch,
        paths,
    ));
}

/// Of two creations that ask for the same place or branch, one behind the other, at most one gets its
/// reservation: where the first got it, the second is refused.
pub proof fn law_only_one_of_two_creations_is_reserved(
    registry: RegistryModel,
    first: ReservationModel,
    second: ReservationModel,
    exists: bool,
    listing: Result<Seq<char>, Seq<Seq<char>>>,
    paths: ResolvedPaths,
)
    requires
        asks_for_the_same(second, first, paths),
    ensures
        reservation_refusal(
            RegistryModel { reservations: registry.reservations.push(first), ..registry },
            second,
            exists,
            listing,
            paths,
        ) is Some,
{
    let after = RegistryModel { reservations: registry.reservations.push(first), ..registry };
    assert(after.reservations[registry.reservations.len() as int] == first);
    law_a_second_reservation_is_refused(after, first, second, exists, listing, paths);
}

/// Reserving and giving up again leaves the registry as it was, where the reservation was not in it.
pub proof fn law_releasing_undoes_reserving(
    reservations: Seq<ReservationModel>,
    reservation: ReservationModel,
)
    requires
        !reservations.contains(reservation),
    ensures
        other_reservations(reservations.push(reservation), reservation) == reservations,
{
    lemma_others_len(reservations, reservation);
    assert(reservations.push(reservation).drop_last() =~= reservations);
}

/// What came of trying to lock the registry.
pub enum LockAttempt {
    Locked,
    /// Another process holds the lock.
    Busy,
    Failed(Failure),
}

/// How getting the lock of the registry goes on.
pub enum LockStep {
    Acquired,
    /// Try again after this many milliseconds.
    Sleep { millis: u64 },
    GiveUp(Failure),
}

/// The message that the lock of the registry could not be got in time.
pub open spec fn lock_timeout(lock_path: Seq<char>) -> Seq<char> {
    super::worktree::quoted(
        "Timed out after 5.0s waiting for worktree registry lock "@,
        lock_path,
        ". OS file locks are released when a process exits; another live process is still using the registry"@,
    )
}

/// How getting the lock of the registry goes on, this many milliseconds after the first try. Another
/// process gets five seconds to let go of it.
pub fn lock_step(attempt: LockAttempt, elapsed: u64, lock_path: &str) -> (step: LockStep)
    ensures
        match attempt {
            LockAttempt::Locked => step is Acquired,
            LockAttempt::Busy => if elapsed < 5000 {
                step == (LockStep::Sleep {
                    millis: if elapsed > 4975 {
                        (5000 - elapsed) as u64
                    } else {
                        25
                    },
                })
            } else {
                step matches LockStep::GiveUp(failure) && failure@ == seq![lock_timeout(lock_path@)]
            },
            LockAttempt::Failed(cause) => step matches LockStep::GiveUp(failure) && failure@ == seq![
                "Failed to lock worktree registry: "@ + lock_path@,
            ] + cause@,
        },
{
    match attempt {
        LockAttempt::Locked => LockStep::Acquired,
        LockAttempt::Busy => {
            if elapsed < 5000 {
                let left: u64 = 5000 - elapsed;
                LockStep::Sleep {
                    millis: if left < 25 {
                        left
                    } else {
                        25
                    },
                }
            } else {
                LockStep::GiveUp(
                    Failure::of(
                        quote(
                            "Timed out after 5.0s waiting for worktree registry lock ",
                            lock_path,
                            ". OS file locks are released when a process exits; another live process is still using the registry",
                        ),
                    ),
                )
            }
        },
        LockAttempt::Failed(cause) => {
            let mut text = "Failed to lock worktree registry: ".to_owned();
            append_text(&mut text, lock_path);
            LockStep::GiveUp(cause.context(text))
        },
    }
}

/// A creation is reserved exactly where nothing lies at its place, where Git could be asked and lists
/// no worktree there, and where the registry holds neither its place nor its branch.
pub proof fn law_free_creations_are_reserved(
    registry: RegistryModel,
    reservation: ReservationModel,
    exists: bool,
    listing: Result<Seq<char>, Seq<Seq<char>>>,
    paths: ResolvedPaths,
)
    ensures
        reservation_refusal(registry, reservation, exists, listing, paths) is None <==> {
            let place = paths.key(reservation.path);
            let repository = paths.key(reservation.common_git_dir);
            &&& !exists
            &&& listing is Ok
            &&& forall|i: int|
                0 <= i < crate::strings::lines(listing->Ok_0).len() && crate::strings::has_prefix(
                    #[trigger] crate::strings::lines(listing->Ok_0)[i],
                    "worktree "@,
                ) ==> paths.key(crate::strings::lines(listing->Ok_0)[i].skip(9)) != place
            &&& forall|i: int|
                0 <= i < registry.worktrees.len() ==> paths.key(
                    (#[trigger] registry.worktrees[i]).path,
                ) != place && !(paths.key(registry.worktrees[i].common_git_dir) == repository
                    && registry.worktrees[i].branch == reservation.branch)
            &&& forall|i: int|
                0 <= i < registry.reservations.len() ==> paths.key(
                    (#[trigger] registry.reservations[i]).path,
                ) != place && !(paths.key(registry.reservations[i].common_git_dir) == repository
                    && registry.reservations[i].branch == reservation.branch)
        },
{
}

/// Taking a reservation out leaves all others, in their order.
pub proof fn law_only_the_reservation_is_taken_out(
    reservations: Seq<ReservationModel>,
    reservation: ReservationModel,
)
    ensures
        other_reservations(reservations, reservation) == reservations.filter(
            |r: ReservationModel| r != reservation,
        ),
    decreases reservations.len(),
{
    reveal(Seq::filter);
    if reservations.len() > 0 {
        law_only_the_reservation_is_taken_out(reservations.drop_last(), reservation);
    }
}

/// Taking an entry out leaves all others, in their order.
pub proof fn law_only_the_entry_is_taken_out(worktrees: Seq<WorktreeModel>, entry: WorktreeModel)
    ensures
        other_worktrees(worktrees, entry) == worktrees.filter(|w: WorktreeModel| w != entry),
    decreases worktrees.len(),
{
    reveal(Seq::filter);
    if worktrees.len() > 0 {
        law_only_the_entry_is_taken_out(worktrees.drop_last(), entry);
    }
}

/// Of the entries, those go whose path is absent, and no others.
pub proof fn law_only_absent_worktrees_are_dropped(worktrees: Seq<WorktreeModel>, absent: Seq<Seq<char>>)
    ensures
        present_worktrees(worktrees, absent) == worktrees.filter(
            |w: WorktreeModel| !absent.contains(w.path),
        ),
    decreases worktrees.len(),
{
    reveal(Seq::filter);
    if worktrees.len() > 0 {
        law_only_absent_worktrees_are_dropped(worktrees.drop_last(), absent);
    }
}

/// What is registered at a place is an entry of the registry with that place, and where nothing is, no
/// entry has it.
pub proof fn law_entries_are_found_by_their_place(
    registry: RegistryModel,
    path: Seq<char>,
    paths: ResolvedPaths,
)
    ensures
        registered_at(registry, path, paths) matches Some(entry) ==> registry.worktrees.contains(entry)
            && paths.key(entry.path) == paths.key(path),
        registered_at(registry, path, paths) is None ==> forall|i: int|
            0 <= i < registry.worktrees.len() ==> paths.key((#[trigger] registry.worktrees[i]).path)
                != paths.key(path),
{
    lemma_place_is_first(registry.worktrees, paths.key(path), paths, 0);
}

proof fn lemma_place_is_first(
    worktrees: Seq<WorktreeModel>,
    key: Seq<char>,
    paths: ResolvedPaths,
    from: int,
)
    requires
        0 <= from <= worktrees.len(),
    ensures
        ({
            let at = place_position(worktrees, key, paths, from);
            &&& from <= at <= worktrees.len()
            &&& at < worktrees.len() ==> paths.key(worktrees[at].path) == key
            &&& forall|i: int| from <= i < at ==> paths.key((#[trigger] worktrees[i]).path) != key
        }),
    decreases worktrees.len() - from,
{
    if from < worktrees.len() && paths.key(worktrees[from].path) != key {
        lemma_place_is_first(worktrees, key, paths, from + 1);
    }
}

/// A worktree is registered exactly where its reservation is still held, where nothing is registered at
/// its place, and where it was found to be what it should be.
pub proof fn law_reserved_worktrees_are_registered(
    registry: RegistryModel,
    reservation: ReservationModel,
    entry: WorktreeModel,
    identity: Result<Seq<char>, Seq<Seq<char>>>,
    paths: ResolvedPaths,
)
    ensures
        registration_refusal(registry, reservation, entry, identity, paths) is None <==> {
            &&& registry.reservations.contains(reservation)
            &&& forall|i: int|
                0 <= i < registry.worktrees.len() ==> paths.key(
                    (#[trigger] registry.worktrees[i]).path,
                ) != paths.key(entry.path)
            &&& identity is Ok
        },
{
    law_entries_are_found_by_their_place(registry, entry.path, paths);
    if let Some(found) = registered_at(registry, entry.path, paths) {
        let i = choose|i: int| 0 <= i < registry.worktrees.len() && registry.worktrees[i] == found;
        assert(paths.key(registry.worktrees[i].path) == paths.key(entry.path));
    }
}

} // verus!
