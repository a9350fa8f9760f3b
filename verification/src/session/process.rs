//! Who holds a session, and when its holder may be ended.

use super::loader::{contains_pid, lock_pid, pid_of_lock};
use crate::paths::{join_path, joined, path_file_name};
use crate::strings::{
    append_text, ascii_lowered, decimal_text, nul_pieces_of, same_bytes, same_text, trimmed,
};
use vstd::prelude::*;

verus! {

/// A process that holds a session through a lock file.
#[derive(Debug)]
pub struct SessionOwner {
    pub pid: u32,
    pub lock: String,
}

/// The processes that live among those that lock files name, in the order of the files.
pub open spec fn live_pids(names: Seq<Seq<char>>, live: Seq<u32>) -> Seq<u32>
    decreases names.len(),
{
    if names.len() == 0 {
        Seq::empty()
    } else {
        let before = live_pids(names.drop_last(), live);
        match lock_pid(names.last()) {
            Some(pid) if live.contains(pid) => before.push(pid),
            _ => before,
        }
    }
}

/// The processes of owners.
pub open spec fn owner_pids(owners: Seq<SessionOwner>) -> Seq<u32> {
    owners.map_values(|o: SessionOwner| o.pid)
}

/// Owners by their processes and the paths of their lock files.
pub open spec fn owner_views(owners: Seq<SessionOwner>) -> Seq<(u32, Seq<char>)> {
    owners.map_values(|o: SessionOwner| (o.pid, o.lock@))
}

/// The holders that live among those that the lock files of a directory name, in the order of the
/// files.
pub open spec fn live_owners(
    directory: Seq<char>,
    names: Seq<Seq<char>>,
    live: Seq<u32>,
    windows: bool,
) -> Seq<(u32, Seq<char>)>
    decreases names.len(),
{
    if names.len() == 0 {
        Seq::empty()
    } else {
        let before = live_owners(directory, names.drop_last(), live, windows);
        match lock_pid(names.last()) {
            Some(pid) if live.contains(pid) => before.push(
                (pid, joined(directory, names.last(), windows)),
            ),
            _ => before,
        }
    }
}

/// The live holders of a session, by the names of the files in its directory.
pub fn session_owners(
    directory: &str,
    names: &Vec<String>,
    live: &Vec<u32>,
    windows: bool,
) -> (owners: Vec<SessionOwner>)
    ensures
        owner_views(owners@) == live_owners(
            directory@,
            crate::strings::text_views(names@),
            live@,
            windows,
        ),
        owner_pids(owners@) == live_pids(crate::strings::text_views(names@), live@),
{
    let ghost views = crate::strings::text_views(names@);
    let mut owners: Vec<SessionOwner> = Vec::new();
    let mut i: usize = 0;
    assert(owner_pids(owners@) =~= Seq::<u32>::empty());
    assert(owner_views(owners@) =~= Seq::<(u32, Seq<char>)>::empty());
    while i < names.len()
        invariant
            i <= names@.len(),
            views == crate::strings::text_views(names@),
            owner_views(owners@) == live_owners(directory@, views.take(i as int), live@, windows),
            owner_pids(owners@) == live_pids(views.take(i as int), live@),
        decreases names@.len() - i,
    {
        proof {
            assert(views.take(i + 1).drop_last() == views.take(i as int));
            assert(views.take(i + 1).last() == names@[i as int]@);
        }
        if let Some(pid) = pid_of_lock(names[i].as_str()) {
            if contains_pid(live, pid) {
                let lock = join_path(directory, names[i].as_str(), windows);
                let owner = SessionOwner { pid, lock };
                proof {
                    assert(owner_pids(owners@.push(owner)) =~= owner_pids(owners@).push(pid));
                    assert(owner_views(owners@.push(owner)) =~= owner_views(owners@).push(
                        (pid, owner.lock@),
                    ));
                }
                owners.push(owner);
            }
        }
        i = i + 1;
    }
    assert(views.take(i as int) == views);
    owners
}

/// The processes that hold a session: those that live among those its lock files name.
pub fn active_session_pids(names: &Vec<String>, live: &Vec<u32>) -> (pids: Vec<u32>)
    ensures
        pids@ == live_pids(crate::strings::text_views(names@), live@),
{
    let ghost views = crate::strings::text_views(names@);
    let mut pids: Vec<u32> = Vec::new();
    let mut i: usize = 0;
    while i < names.len()
        invariant
            i <= names@.len(),
            views == crate::strings::text_views(names@),
            pids@ == live_pids(views.take(i as int), live@),
        decreases names@.len() - i,
    {
        proof {
            assert(views.take(i + 1).drop_last() == views.take(i as int));
            assert(views.take(i + 1).last() == names@[i as int]@);
        }
        if let Some(pid) = pid_of_lock(names[i].as_str()) {
            if contains_pid(live, pid) {
                pids.push(pid);
            }
        }
        i = i + 1;
    }
    assert(views.take(i as int) == views);
    pids
}

/// Where a number goes in an ascending list: behind those that are not larger.
pub open spec fn pid_place(sorted: Seq<u32>, pid: u32, from: int) -> int
    decreases sorted.len() - from,
{
    if 0 <= from < sorted.len() && sorted[from] <= pid {
        pid_place(sorted, pid, from + 1)
    } else {
        from
    }
}

/// Numbers in ascending order.
pub open spec fn ascending_pids(pids: Seq<u32>) -> Seq<u32>
    decreases pids.len(),
{
    if pids.len() == 0 {
        Seq::empty()
    } else {
        let sorted = ascending_pids(pids.drop_last());
        sorted.insert(pid_place(sorted, pids.last(), 0), pids.last())
    }
}

fn sort_pids(pids: &Vec<u32>) -> (sorted: Vec<u32>)
    ensures
        sorted@ == ascending_pids(pids@),
{
    let mut sorted: Vec<u32> = Vec::new();
    let mut i: usize = 0;
    while i < pids.len()
        invariant
            i <= pids@.len(),
            sorted@ == ascending_pids(pids@.take(i as int)),
        decreases pids@.len() - i,
    {
        proof {
            assert(pids@.take(i + 1).drop_last() == pids@.take(i as int));
        }
        let pid: u32 = pids[i];
        let mut at: usize = 0;
        while at < sorted.len() && sorted[at] <= pid
            invariant
                at <= sorted@.len(),
                pid_place(sorted@, pid, 0) == pid_place(sorted@, pid, at as int),
            decreases sorted@.len() - at,
        {
            at = at + 1;
        }
        sorted.insert(at, pid);
        i = i + 1;
    }
    assert(pids@.take(i as int) == pids@);
    sorted
}

proof fn lemma_pid_place(sorted: Seq<u32>, pid: u32, from: int)
    requires
        0 <= from <= sorted.len(),
    ensures
        from <= pid_place(sorted, pid, from) <= sorted.len(),
        forall|i: int| from <= i < pid_place(sorted, pid, from) ==> #[trigger] sorted[i] <= pid,
        pid_place(sorted, pid, from) < sorted.len() ==> sorted[pid_place(sorted, pid, from)] > pid,
    decreases sorted.len() - from,
{
    if from < sorted.len() && sorted[from] <= pid {
        lemma_pid_place(sorted, pid, from + 1);
    }
}

/// Whether numbers ascend.
pub open spec fn in_order(pids: Seq<u32>) -> bool {
    forall|i: int, j: int| 0 <= i < j < pids.len() ==> #[trigger] pids[i] <= #[trigger] pids[j]
}

proof fn lemma_ascending(pids: Seq<u32>)
    ensures
        ascending_pids(pids).to_multiset() == pids.to_multiset(),
        ascending_pids(pids).len() == pids.len(),
        in_order(ascending_pids(pids)),
    decreases pids.len(),
{
    broadcast use vstd::seq_lib::group_to_multiset_ensures;

    if pids.len() > 0 {
        let shorter = pids.drop_last();
        let sorted = ascending_pids(shorter);
        let last = pids.last();
        lemma_ascending(shorter);
        lemma_pid_place(sorted, last, 0);
        let at = pid_place(sorted, last, 0);
        assert(pids =~= shorter.push(last));
        assert(sorted.insert(at, last).to_multiset() =~= sorted.to_multiset().insert(last)) by {
            vstd::seq_lib::to_multiset_insert(sorted, at, last);
        }
        let whole = sorted.insert(at, last);
        assert forall|i: int, j: int| 0 <= i < j < whole.len() implies #[trigger] whole[i]
            <= #[trigger] whole[j] by {
            if j < at {
                assert(whole[i] == sorted[i] && whole[j] == sorted[j]);
            } else if i >= at + 1 {
                assert(whole[i] == sorted[i - 1] && whole[j] == sorted[j - 1]);
            } else if i < at && j == at {
                assert(whole[i] == sorted[i]);
            } else if i < at {
                assert(whole[i] == sorted[i] && whole[j] == sorted[j - 1]);
            } else {
                assert(whole[j] == sorted[j - 1]);
                assert(sorted[at] <= sorted[j - 1]);
            }
        }
    }
}

proof fn lemma_ordered_unique(a: Seq<u32>, b: Seq<u32>)
    requires
        in_order(a),
        in_order(b),
        a.to_multiset() == b.to_multiset(),
    ensures
        a == b,
    decreases a.len(),
{
    broadcast use vstd::seq_lib::group_to_multiset_ensures;

    vstd::seq_lib::to_multiset_len(a);
    vstd::seq_lib::to_multiset_len(b);
    if a.len() > 0 {
        let x = a.last();
        let y = b.last();
        assert(a.contains(x)) by {
            assert(a[a.len() - 1] == x);
        }
        assert(b.contains(y)) by {
            assert(b[b.len() - 1] == y);
        }
        assert(b.contains(x)) by {
            assert(a.to_multiset().count(x) > 0);
        }
        assert(a.contains(y)) by {
            assert(b.to_multiset().count(y) > 0);
        }
        let i = choose|i: int| 0 <= i < b.len() && b[i] == x;
        let j = choose|j: int| 0 <= j < a.len() && a[j] == y;
        assert(x <= y) by {
            assert(b[i] <= b[b.len() - 1]);
        }
        assert(y <= x) by {
            assert(a[j] <= a[a.len() - 1]);
        }
        assert(a =~= a.drop_last().push(x));
        assert(b =~= b.drop_last().push(x));
        assert(a.drop_last().to_multiset() =~= b.drop_last().to_multiset()) by {
            assert(a.to_multiset() =~= a.drop_last().to_multiset().insert(x));
            assert(b.to_multiset() =~= b.drop_last().to_multiset().insert(x));
            assert(a.drop_last().to_multiset() =~= a.to_multiset().remove(x));
            assert(b.drop_last().to_multiset() =~= b.to_multiset().remove(x));
        }
        lemma_ordered_unique(a.drop_last(), b.drop_last());
    } else {
        assert(a =~= b);
    }
}

/// Two lists of processes agree in ascending order exactly when they hold the same processes, each as
/// often; the order in which they were found plays no part.
pub proof fn law_ownership_ignores_order(a: Seq<u32>, b: Seq<u32>)
    ensures
        (ascending_pids(a) == ascending_pids(b)) == (a.to_multiset() == b.to_multiset()),
{
    lemma_ascending(a);
    lemma_ascending(b);
    if a.to_multiset() == b.to_multiset() {
        lemma_ordered_unique(ascending_pids(a), ascending_pids(b));
    }
}

/// Numbers as a list in square brackets.
pub open spec fn pid_list(pids: Seq<u32>) -> Seq<char> {
    "["@ + pid_items(pids) + "]"@
}

/// Numbers with commas between them.
pub open spec fn pid_items(pids: Seq<u32>) -> Seq<char>
    decreases pids.len(),
{
    if pids.len() == 0 {
        Seq::empty()
    } else if pids.len() == 1 {
        crate::strings::decimal(pids[0] as nat)
    } else {
        pid_items(pids.drop_last()) + ", "@ + crate::strings::decimal(pids.last() as nat)
    }
}

fn append_pid_list(text: &mut String, pids: &Vec<u32>)
    ensures
        final(text)@ == old(text)@ + pid_list(pids@),
{
    append_text(text, "[");
    let mut items = String::new();
    let mut i: usize = 0;
    while i < pids.len()
        invariant
            i <= pids@.len(),
            items@ == pid_items(pids@.take(i as int)),
        decreases pids@.len() - i,
    {
        proof {
            assert(pids@.take(i + 1).drop_last() == pids@.take(i as int));
        }
        if i > 0 {
            append_text(&mut items, ", ");
        }
        append_text(&mut items, decimal_text(pids[i] as u64).as_str());
        proof {
            if i == 0 {
                assert(items@ =~= crate::strings::decimal(pids@[0] as nat));
            }
        }
        i = i + 1;
    }
    assert(pids@.take(i as int) == pids@);
    append_text(text, items.as_str());
    append_text(text, "]");
    proof {
        assert(text@ =~= old(text)@ + pid_list(pids@));
    }
}

/// The message that the holders of a session are others than those that were confirmed.
pub open spec fn ownership_changed(
    when: Seq<char>,
    confirmed: Seq<u32>,
    current: Seq<u32>,
) -> Seq<char> {
    "Session ownership changed "@ + when + " (was "@ + pid_list(ascending_pids(confirmed))
        + ", now "@ + pid_list(ascending_pids(current)) + ")"@
}

fn check_ownership(when: &str, confirmed: &Vec<u32>, current: &Vec<u32>) -> (r: Result<(), String>)
    ensures
        match r {
            Ok(_) => ascending_pids(confirmed@) == ascending_pids(current@),
            Err(message) => ascending_pids(confirmed@) != ascending_pids(current@) && message@
                == ownership_changed(when@, confirmed@, current@),
        },
{
    let was = sort_pids(confirmed);
    let now = sort_pids(current);
    let mut same = was.len() == now.len();
    let mut i: usize = 0;
    while same && i < was.len()
        invariant
            i <= was@.len(),
            same ==> was@.len() == now@.len() && forall|j: int|
                0 <= j < i ==> was@[j] == now@[j],
            !same ==> was@ != now@,
        decreases was@.len() - i + (if same {
            1int
        } else {
            0int
        }),
    {
        if was[i] != now[i] {
            same = false;
        } else {
            i = i + 1;
        }
    }
    if same {
        assert(was@ =~= now@);
        return Ok(());
    }
    let mut message = "Session ownership changed ".to_owned();
    append_text(&mut message, when);
    append_text(&mut message, " (was ");
    append_pid_list(&mut message, &was);
    append_text(&mut message, ", now ");
    append_pid_list(&mut message, &now);
    append_text(&mut message, ")");
    Err(message)
}

/// A takeover that may go on to validating: the session, and the processes that hold it.
#[derive(Debug)]
pub struct Takeover {
    pub session_id: String,
    pub owners: Vec<SessionOwner>,
}

/// Begins to take a session over. The processes that hold it must be those the user confirmed.
pub fn begin_takeover(
    session_dir: &str,
    names: &Vec<String>,
    live: &Vec<u32>,
    confirmed: &Vec<u32>,
    windows: bool,
) -> (r: Result<Takeover, String>)
    ensures
        ({
            let id = crate::paths::file_name(session_dir@, windows);
            let current = live_pids(crate::strings::text_views(names@), live@);
            match r {
                Ok(takeover) => {
                    &&& id == Some(takeover.session_id@)
                    &&& ascending_pids(confirmed@) == ascending_pids(current)
                    &&& owner_pids(takeover.owners@) == current
                    &&& owner_views(takeover.owners@) == live_owners(
                        session_dir@,
                        crate::strings::text_views(names@),
                        live@,
                        windows,
                    )
                },
                Err(message) => if id is None {
                    message@ == "Session directory has no id"@
                } else {
                    ascending_pids(confirmed@) != ascending_pids(current) && message@
                        == ownership_changed("while confirmation was open"@, confirmed@, current)
                },
            }
        }),
{
    let session_id = match path_file_name(session_dir, windows) {
        Some(id) => id,
        None => return Err("Session directory has no id".to_owned()),
    };
    let current = active_session_pids(names, live);
    match check_ownership("while confirmation was open", confirmed, &current) {
        Ok(_) => Ok(
            Takeover { session_id, owners: session_owners(session_dir, names, live, windows) },
        ),
        Err(message) => Err(message),
    }
}

/// The position of the first failed validation, or the end.
pub open spec fn first_failure(validations: Seq<Result<(), String>>, from: int) -> int
    decreases validations.len() - from,
{
    if 0 <= from < validations.len() && validations[from] is Ok {
        first_failure(validations, from + 1)
    } else {
        from
    }
}

/// What a takeover comes to, once each holder was validated and the holders were looked up again:
/// the processes that are ended, or why none is.
pub open spec fn takeover_decision(
    takeover: Takeover,
    validations: Seq<Result<(), String>>,
    confirmed: Seq<u32>,
    rechecked: Seq<u32>,
    r: Result<Vec<u32>, String>,
) -> bool {
    let failed = first_failure(validations, 0);
    match r {
        Ok(pids) => failed >= validations.len() && ascending_pids(confirmed) == ascending_pids(
            rechecked,
        ) && pids@ == owner_pids(takeover.owners@),
        Err(message) => if failed < validations.len() {
            validations[failed] matches Err(reason) && message@ == reason@
        } else {
            ascending_pids(confirmed) != ascending_pids(rechecked) && message@ == ownership_changed(
                "during validation"@,
                confirmed,
                rechecked,
            )
        },
    }
}

/// Decides whether the holders of a session are ended, and which. Every one of them must have been
/// validated, and the session must still be held by those the user confirmed. `validations` holds
/// one outcome for each holder.
pub fn terminate_session(
    takeover: &Takeover,
    validations: &Vec<Result<(), String>>,
    confirmed: &Vec<u32>,
    rechecked: &Vec<u32>,
) -> (r: Result<Vec<u32>, String>)
    requires
        validations@.len() == takeover.owners@.len(),
    ensures
        takeover_decision(*takeover, validations@, confirmed@, rechecked@, r),
{
    let mut i: usize = 0;
    while i < validations.len()
        invariant
            i <= validations@.len(),
            first_failure(validations@, 0) == first_failure(validations@, i as int),
        decreases validations@.len() - i,
    {
        if let Err(reason) = &validations[i] {
            return Err(reason.clone());
        }
        i = i + 1;
    }
    match check_ownership("during validation", confirmed, rechecked) {
        Ok(_) => {},
        Err(message) => return Err(message),
    }
    let mut pids: Vec<u32> = Vec::new();
    let mut k: usize = 0;
    while k < takeover.owners.len()
        invariant
            k <= takeover.owners@.len(),
            pids@ == owner_pids(takeover.owners@).take(k as int),
        decreases takeover.owners@.len() - k,
    {
        pids.push(takeover.owners[k].pid);
        k = k + 1;
    }
    assert(owner_pids(takeover.owners@).take(k as int) == owner_pids(takeover.owners@));
    Ok(pids)
}

/// What was seen of a process that holds a session, on the system the program runs on. A part that
/// could not be seen is absent.
pub enum OwnerFacts {
    Windows {
        opened: bool,
        image: Option<String>,
        created_ticks: Option<u64>,
        /// Nanoseconds since the Unix epoch.
        lock_time: Option<i128>,
    },
    Linux { pinned: bool, command: Option<Vec<u8>>, executable: Option<String> },
    OtherUnix,
}

/// The nanoseconds since the Unix epoch of a Windows file time, which counts tenths of microseconds
/// from the year 1601 on. There is none before the epoch.
pub open spec fn filetime_nanos(ticks: u64) -> Option<u64> {
    if ticks < 116_444_736_000_000_000 {
        None
    } else if (ticks - 116_444_736_000_000_000) * 100 > u64::MAX {
        Some(u64::MAX)
    } else {
        Some(((ticks - 116_444_736_000_000_000) * 100) as u64)
    }
}

/// The nanoseconds since the Unix epoch of a Windows file time.
pub fn filetime_to_system_time(ticks: u64) -> (nanos: Option<u64>)
    ensures
        nanos == filetime_nanos(ticks),
{
    if ticks < 116_444_736_000_000_000 {
        None
    } else {
        let tenths: u64 = ticks - 116_444_736_000_000_000;
        if tenths > u64::MAX / 100 {
            Some(u64::MAX)
        } else {
            Some(tenths * 100)
        }
    }
}

/// A message with a process id at its end.
pub open spec fn about_pid(message: Seq<char>, pid: u32) -> Seq<char> {
    message + crate::strings::decimal(pid as nat)
}

fn pid_message(message: &str, pid: u32) -> (text: String)
    ensures
        text@ == about_pid(message@, pid),
{
    let mut text = message.to_owned();
    append_text(&mut text, decimal_text(pid as u64).as_str());
    text
}

/// The message that a process is not the one it should be.
pub open spec fn not_copilot(pid: u32, image: Seq<char>) -> Seq<char> {
    about_pid("Refusing to take over: PID "@, pid) + " is '"@ + image + "' rather than Copilot"@
}

fn not_copilot_message(pid: u32, image: &str) -> (text: String)
    ensures
        text@ == not_copilot(pid, image@),
{
    let mut text = pid_message("Refusing to take over: PID ", pid);
    append_text(&mut text, " is '");
    append_text(&mut text, image);
    append_text(&mut text, "' rather than Copilot");
    text
}

/// Why a lock does not show that a process holds its session. `content` is the text of the lock
/// file, where it could be read.
pub open spec fn lock_refusal(owner: SessionOwner, content: Option<Seq<char>>) -> Option<Seq<char>> {
    match content {
        None => Some("Failed to read session lock "@ + owner.lock@),
        Some(text) => if crate::strings::trim(text) != crate::strings::decimal(owner.pid as nat) {
            Some(
                about_pid(
                    "Session lock "@ + owner.lock@ + " does not belong to PID "@,
                    owner.pid,
                ),
            )
        } else {
            None
        },
    }
}

fn validate_lock(owner: &SessionOwner, content: &Option<String>) -> (r: Result<(), String>)
    ensures
        match r {
            Ok(_) => lock_refusal(*owner, text_view(*content)) is None,
            Err(message) => lock_refusal(*owner, text_view(*content)) == Some(message@),
        },
{
    match content {
        None => {
            let mut message = "Failed to read session lock ".to_owned();
            append_text(&mut message, owner.lock.as_str());
            Err(message)
        },
        Some(text) => {
            let named = trimmed(text.as_str());
            let wanted = decimal_text(owner.pid as u64);
            if same_text(named.as_str(), wanted.as_str()) {
                Ok(())
            } else {
                let mut message = "Session lock ".to_owned();
                append_text(&mut message, owner.lock.as_str());
                append_text(&mut message, " does not belong to PID ");
                append_text(&mut message, wanted.as_str());
                Err(message)
            }
        },
    }
}

/// The view of a text that may be absent.
pub open spec fn text_view(text: Option<String>) -> Option<Seq<char>> {
    match text {
        Some(t) => Some(t@),
        None => None,
    }
}

/// The name of a program's file, without the case of its letters; empty where there is none.
pub open spec fn program_name(path: Seq<char>, windows: bool) -> Seq<char> {
    match crate::paths::file_name(path, windows) {
        Some(name) => crate::strings::ascii_lower_text(name),
        None => Seq::empty(),
    }
}

fn program_name_of(path: &str, windows: bool) -> (name: String)
    ensures
        name@ == program_name(path@, windows),
{
    match path_file_name(path, windows) {
        Some(name) => ascii_lowered(name.as_str()),
        None => String::new(),
    }
}

/// Why a process on Windows may not be ended. It must be Copilot, and older than the lock: a younger
/// one got its number after the holder had gone.
pub open spec fn windows_refusal(
    owner: SessionOwner,
    opened: bool,
    image: Option<Seq<char>>,
    created_ticks: Option<u64>,
    lock_time: Option<i128>,
) -> Option<Seq<char>> {
    if !opened {
        Some(about_pid("Cannot inspect session owner PID "@, owner.pid))
    } else if image is None {
        Some("Failed to identify the session owner process"@)
    } else if program_name(image->0, true) != "copilot.exe"@ {
        Some(not_copilot(owner.pid, image->0))
    } else if created_ticks is None {
        Some("Failed to read the session owner start time"@)
    } else if filetime_nanos(created_ticks->0) is None {
        Some("Process creation time predates the Unix epoch"@)
    } else if lock_time is None {
        Some("Failed to date session lock "@ + owner.lock@)
    } else if filetime_nanos(created_ticks->0)->0 > lock_time->0 {
        Some(
            about_pid("Refusing to take over: PID "@, owner.pid)
                + " was reused after this session lock was created"@,
        )
    } else {
        None
    }
}

/// Whether a command line, its arguments ended by zero bytes, names a session.
pub open spec fn names_session(command: Seq<u8>, session_id: Seq<char>) -> bool {
    let pieces = crate::strings::nul_pieces(command);
    ||| pieces.contains(vstd::utf8::encode_utf8("--resume="@ + session_id))
    ||| pieces.contains(vstd::utf8::encode_utf8("--session-id="@ + session_id))
}

/// Why a process on Linux may not be ended. It must name the session, and be Copilot.
pub open spec fn linux_refusal(
    owner: SessionOwner,
    session_id: Seq<char>,
    pinned: bool,
    command: Option<Seq<u8>>,
    executable: Option<Seq<char>>,
) -> Option<Seq<char>> {
    if !pinned {
        Some(about_pid("Cannot pin session owner PID "@, owner.pid))
    } else if command is None {
        Some(about_pid("Cannot inspect session owner PID "@, owner.pid))
    } else if !names_session(command->0, session_id) {
        Some(
            about_pid("Refusing to take over: PID "@, owner.pid) + " does not name session "@
                + session_id,
        )
    } else if executable is None {
        Some(about_pid("Cannot identify session owner PID "@, owner.pid))
    } else if program_name(executable->0, false) != "copilot"@ && program_name(executable->0, false)
        != "copilot.exe"@ {
        Some(not_copilot(owner.pid, executable->0))
    } else {
        None
    }
}

/// Why a process may not be ended as the holder of a session.
pub open spec fn owner_refusal(
    owner: SessionOwner,
    session_id: Seq<char>,
    lock_content: Option<Seq<char>>,
    facts: OwnerFacts,
) -> Option<Seq<char>> {
    if lock_refusal(owner, lock_content) is Some {
        lock_refusal(owner, lock_content)
    } else {
        match facts {
            OwnerFacts::Windows { opened, image, created_ticks, lock_time } => windows_refusal(
                owner,
                opened,
                text_view(image),
                created_ticks,
                lock_time,
            ),
            OwnerFacts::Linux { pinned, command, executable } => linux_refusal(
                owner,
                session_id,
                pinned,
                match command {
                    Some(c) => Some(c@),
                    None => None,
                },
                text_view(executable),
            ),
            OwnerFacts::OtherUnix => Some(
                about_pid(
                    "Safe session takeover is not supported on this Unix platform (PID "@,
                    owner.pid,
                ) + ")"@,
            ),
        }
    }
}

fn has_piece(pieces: &Vec<Vec<u8>>, text: &str) -> (r: bool)
    ensures
        r == crate::strings::piece_views(pieces@).contains(vstd::utf8::encode_utf8(text@)),
{
    let ghost views = crate::strings::piece_views(pieces@);
    let wanted = text.as_bytes();
    assert(wanted@ == vstd::utf8::encode_utf8(text@));
    let mut i: usize = 0;
    while i < pieces.len()
        invariant
            i <= pieces@.len(),
            views == crate::strings::piece_views(pieces@),
            wanted@ == vstd::utf8::encode_utf8(text@),
            forall|j: int| 0 <= j < i ==> #[trigger] views[j] != wanted@,
        decreases pieces@.len() - i,
    {
        assert(views[i as int] == pieces@[i as int]@);
        if same_bytes(&pieces[i], wanted) {
            return true;
        }
        i = i + 1;
    }
    false
}

fn command_names_session(command: &Vec<u8>, session_id: &str) -> (r: bool)
    ensures
        r == names_session(command@, session_id@),
{
    let pieces = nul_pieces_of(command);
    let mut resumed = "--resume=".to_owned();
    append_text(&mut resumed, session_id);
    let mut started = "--session-id=".to_owned();
    append_text(&mut started, session_id);
    has_piece(&pieces, resumed.as_str()) || has_piece(&pieces, started.as_str())
}

/// Decides whether a process may be ended as the holder of a session.
pub fn validate_owner(
    owner: &SessionOwner,
    session_id: &str,
    lock_content: &Option<String>,
    facts: &OwnerFacts,
) -> (r: Result<(), String>)
    ensures
        match r {
            Ok(_) => owner_refusal(*owner, session_id@, text_view(*lock_content), *facts) is None,
            Err(message) => owner_refusal(*owner, session_id@, text_view(*lock_content), *facts)
                == Some(message@),
        },
{
    match validate_lock(owner, lock_content) {
        Ok(_) => {},
        Err(message) => return Err(message),
    }
    match facts {
        OwnerFacts::Windows { opened, image, created_ticks, lock_time } => {
            if !*opened {
                return Err(pid_message("Cannot inspect session owner PID ", owner.pid));
            }
            let path = match image {
                Some(path) => path,
                None => return Err("Failed to identify the session owner process".to_owned()),
            };
            let name = program_name_of(path.as_str(), true);
            if !same_text(name.as_str(), "copilot.exe") {
                return Err(not_copilot_message(owner.pid, path.as_str()));
            }
            let ticks: u64 = match created_ticks {
                Some(ticks) => *ticks,
                None => return Err("Failed to read the session owner start time".to_owned()),
            };
            let created: u64 = match filetime_to_system_time(ticks) {
                Some(created) => created,
                None => return Err("Process creation time predates the Unix epoch".to_owned()),
            };
            match lock_time {
                None => {
                    let mut message = "Failed to date session lock ".to_owned();
                    append_text(&mut message, owner.lock.as_str());
                    Err(message)
                },
                Some(at) => {
                    if created as i128 > *at {
                        let mut message = pid_message("Refusing to take over: PID ", owner.pid);
                        append_text(
                            &mut message,
                            " was reused after this session lock was created",
                        );
                        Err(message)
                    } else {
                        Ok(())
                    }
                },
            }
        },
        OwnerFacts::Linux { pinned, command, executable } => {
            if !*pinned {
                return Err(pid_message("Cannot pin session owner PID ", owner.pid));
            }
            let line = match command {
                Some(line) => line,
                None => return Err(pid_message("Cannot inspect session owner PID ", owner.pid)),
            };
            if !command_names_session(line, session_id) {
                let mut message = pid_message("Refusing to take over: PID ", owner.pid);
                append_text(&mut message, " does not name session ");
                append_text(&mut message, session_id);
                return Err(message);
            }
            let path = match executable {
                Some(path) => path,
                None => return Err(pid_message("Cannot identify session owner PID ", owner.pid)),
            };
            let name = program_name_of(path.as_str(), false);
            if same_text(name.as_str(), "copilot") || same_text(name.as_str(), "copilot.exe") {
                Ok(())
            } else {
                Err(not_copilot_message(owner.pid, path.as_str()))
            }
        },
        OwnerFacts::OtherUnix => {
            let mut message = pid_message(
                "Safe session takeover is not supported on this Unix platform (PID ",
                owner.pid,
            );
            append_text(&mut message, ")");
            Err(message)
        },
    }
}

/// How far the end of a process has come, and what is to be done next.
pub enum OwnerStage {
    /// Ask the process to end.
    Signal,
    /// Wait for its end, this many milliseconds.
    AwaitExit { millis: u64 },
    /// End it without asking.
    Kill,
    /// Wait for its end after that, this many milliseconds.
    AwaitDeath { millis: u64 },
    Ended,
    Failed(String),
}

/// On which kind of system a process is ended.
#[derive(Clone, Copy, PartialEq, Eq, Structural, Debug)]
pub enum OwnerPlatform {
    Windows,
    Linux,
    OtherUnix,
}

/// The stage behind another. `done` says whether what the stage asks for came about: the signal was
/// delivered, the process ended within the time. `running` says whether the process lives.
pub open spec fn next_stage(
    platform: OwnerPlatform,
    pid: u32,
    stage: OwnerStage,
    done: bool,
    running: bool,
    next: OwnerStage,
) -> bool {
    match stage {
        OwnerStage::Signal => if done || (platform == OwnerPlatform::OtherUnix && !running) {
            next == (OwnerStage::AwaitExit { millis: 3000 })
        } else if platform == OwnerPlatform::Windows && !running {
            next is Ended
        } else if platform == OwnerPlatform::Windows {
            next matches OwnerStage::Failed(m) && m@ == about_pid(
                "Failed to terminate Copilot PID "@,
                pid,
            )
        } else {
            next matches OwnerStage::Failed(m) && m@ == about_pid(
                "Failed to signal Copilot PID "@,
                pid,
            )
        },
        OwnerStage::AwaitExit { .. } => if done {
            next is Ended
        } else if platform == OwnerPlatform::Linux {
            next is Kill
        } else {
            next matches OwnerStage::Failed(m) && m@ == about_pid("Copilot PID "@, pid)
                + " did not exit within 3 seconds"@
        },
        OwnerStage::Kill => if done {
            next == (OwnerStage::AwaitDeath { millis: 1000 })
        } else {
            next matches OwnerStage::Failed(m) && m@ == about_pid(
                "Failed to kill Copilot PID "@,
                pid,
            )
        },
        OwnerStage::AwaitDeath { .. } => if done {
            next is Ended
        } else {
            next matches OwnerStage::Failed(m) && m@ == about_pid("Copilot PID "@, pid)
                + " did not exit after SIGKILL"@
        },
        OwnerStage::Ended => next is Ended,
        OwnerStage::Failed(_) => next == stage,
    }
}

/// Goes on with ending a process.
pub fn terminate_owner(
    platform: OwnerPlatform,
    pid: u32,
    stage: OwnerStage,
    done: bool,
    running: bool,
) -> (next: OwnerStage)
    ensures
        next_stage(platform, pid, stage, done, running, next),
{
    match stage {
        OwnerStage::Signal => {
            if done || (platform == OwnerPlatform::OtherUnix && !running) {
                OwnerStage::AwaitExit { millis: 3000 }
            } else if platform == OwnerPlatform::Windows && !running {
                OwnerStage::Ended
            } else if platform == OwnerPlatform::Windows {
                OwnerStage::Failed(pid_message("Failed to terminate Copilot PID ", pid))
            } else {
                OwnerStage::Failed(pid_message("Failed to signal Copilot PID ", pid))
            }
        },
        OwnerStage::AwaitExit { .. } => {
            if done {
                OwnerStage::Ended
            } else if platform == OwnerPlatform::Linux {
                OwnerStage::Kill
            } else {
                let mut message = pid_message("Copilot PID ", pid);
                append_text(&mut message, " did not exit within 3 seconds");
                OwnerStage::Failed(message)
            }
        },
        OwnerStage::Kill => {
            if done {
                OwnerStage::AwaitDeath { millis: 1000 }
            } else {
                OwnerStage::Failed(pid_message("Failed to kill Copilot PID ", pid))
            }
        },
        OwnerStage::AwaitDeath { .. } => {
            if done {
                OwnerStage::Ended
            } else {
                let mut message = pid_message("Copilot PID ", pid);
                append_text(&mut message, " did not exit after SIGKILL");
                OwnerStage::Failed(message)
            }
        },
        OwnerStage::Ended => OwnerStage::Ended,
        OwnerStage::Failed(message) => OwnerStage::Failed(message),
    }
}

/// What Windows said of a process: its handle could not be opened, with this error; or its exit code
/// was asked for, and came back or not.
pub enum WindowsProcess {
    Unopened { error: u32 },
    Opened { exit_code: Option<u32> },
}

/// Whether a process lives on Windows. One that may not be inspected does, and so does one whose exit
/// code cannot be read.
pub fn process_is_running(seen: &WindowsProcess) -> (r: bool)
    ensures
        r == (match *seen {
            WindowsProcess::Unopened { error } => error != 87,
            WindowsProcess::Opened { exit_code } => exit_code is None || exit_code == Some(259u32),
        }),
{
    match seen {
        WindowsProcess::Unopened { error } => *error != 87,
        WindowsProcess::Opened { exit_code } => match exit_code {
            None => true,
            Some(code) => *code == 259,
        },
    }
}

/// Where no validation failed, every one of them went well.
proof fn lemma_no_failure(validations: Seq<Result<(), String>>, from: int, at: int)
    requires
        0 <= from <= at < validations.len(),
        first_failure(validations, from) >= validations.len(),
    ensures
        validations[at] is Ok,
    decreases at - from,
{
    if from < at {
        lemma_no_failure(validations, from + 1, at);
    }
}

/// A session is never taken over from anyone but those the user confirmed: where processes are ended,
/// they are those that the user confirmed, the session is still held by just these, and nothing spoke
/// against any one of them being ended.
pub proof fn law_only_confirmed_and_validated_holders_are_ended(
    takeover: Takeover,
    locks: Seq<Option<Seq<char>>>,
    facts: Seq<OwnerFacts>,
    validations: Seq<Result<(), String>>,
    confirmed: Seq<u32>,
    rechecked: Seq<u32>,
    ended: Vec<u32>,
)
    requires
        ascending_pids(confirmed) == ascending_pids(owner_pids(takeover.owners@)),
        locks.len() == takeover.owners@.len(),
        facts.len() == takeover.owners@.len(),
        validations.len() == takeover.owners@.len(),
        forall|i: int|
            0 <= i < validations.len() ==> ((#[trigger] validations[i]) is Ok) == (owner_refusal(
                takeover.owners@[i],
                takeover.session_id@,
                locks[i],
                facts[i],
            ) is None),
        takeover_decision(takeover, validations, confirmed, rechecked, Ok(ended)),
    ensures
        ended@.to_multiset() == confirmed.to_multiset(),
        rechecked.to_multiset() == confirmed.to_multiset(),
        ended@.len() == takeover.owners@.len(),
        forall|i: int|
            0 <= i < ended@.len() ==> {
                &&& #[trigger] ended@[i] == takeover.owners@[i].pid
                &&& owner_refusal(
                    takeover.owners@[i],
                    takeover.session_id@,
                    locks[i],
                    facts[i],
                ) is None
            },
{
    law_ownership_ignores_order(confirmed, owner_pids(takeover.owners@));
    law_ownership_ignores_order(confirmed, rechecked);
    assert forall|i: int| 0 <= i < ended@.len() implies {
        &&& #[trigger] ended@[i] == takeover.owners@[i].pid
        &&& owner_refusal(takeover.owners@[i], takeover.session_id@, locks[i], facts[i]) is None
    } by {
        lemma_no_failure(validations, 0, i);
        assert(validations[i] is Ok);
    }
}

/// The holders of a session are exactly the running processes that a lock names.
pub proof fn law_holders_have_a_lock_and_run(names: Seq<Seq<char>>, live: Seq<u32>, pid: u32)
    ensures
        live_pids(names, live).contains(pid) <==> live.contains(pid) && exists|i: int|
            0 <= i < names.len() && lock_pid(#[trigger] names[i]) == Some(pid),
    decreases names.len(),
{
    if names.len() > 0 {
        let shorter = names.drop_last();
        law_holders_have_a_lock_and_run(shorter, live, pid);
        let before = live_pids(shorter, live);
        let now = live_pids(names, live);
        if before.contains(pid) {
            let k = choose|k: int| 0 <= k < before.len() && before[k] == pid;
            assert(now[k] == pid);
        }
        if now.contains(pid) && !before.contains(pid) {
            let k = choose|k: int| 0 <= k < now.len() && now[k] == pid;
            if k < before.len() {
                assert(before[k] == pid);
            }
            assert(lock_pid(names[names.len() - 1]) == Some(pid));
        }
        if exists|i: int| 0 <= i < shorter.len() && lock_pid(#[trigger] shorter[i]) == Some(pid) {
            let i = choose|i: int| 0 <= i < shorter.len() && lock_pid(#[trigger] shorter[i]) == Some(pid);
            assert(names[i] == shorter[i]);
        }
        if live.contains(pid) && exists|i: int|
            0 <= i < names.len() && lock_pid(#[trigger] names[i]) == Some(pid) {
            let i = choose|i: int| 0 <= i < names.len() && lock_pid(#[trigger] names[i]) == Some(pid);
            if i < shorter.len() {
                assert(shorter[i] == names[i]);
            } else {
                assert(now.last() == pid);
                assert(now[now.len() - 1] == pid);
            }
        }
    }
}

/// Every holder comes with the lock that names it, in the session's directory.
pub proof fn law_holders_come_with_their_lock(
    directory: Seq<char>,
    names: Seq<Seq<char>>,
    live: Seq<u32>,
    windows: bool,
    k: int,
)
    requires
        0 <= k < live_owners(directory, names, live, windows).len(),
    ensures
        ({
            let owner = live_owners(directory, names, live, windows)[k];
            &&& live.contains(owner.0)
            &&& exists|i: int|
                0 <= i < names.len() && lock_pid(#[trigger] names[i]) == Some(owner.0) && owner.1
                    == joined(directory, names[i], windows)
            &&& live_owners(directory, names, live, windows).len() == live_pids(names, live).len()
            &&& live_pids(names, live)[k] == owner.0
        }),
    decreases names.len(),
{
    if names.len() > 0 {
        let shorter = names.drop_last();
        let before = live_owners(directory, shorter, live, windows);
        lemma_as_many_holders(directory, shorter, live, windows);
        let owner = live_owners(directory, names, live, windows)[k];
        if k < before.len() {
            law_holders_come_with_their_lock(directory, shorter, live, windows, k);
            let i = choose|i: int|
                0 <= i < shorter.len() && lock_pid(#[trigger] shorter[i]) == Some(owner.0) && owner.1
                    == joined(directory, shorter[i], windows);
            assert(names[i] == shorter[i]);
        } else {
            assert(lock_pid(names[names.len() - 1]) == Some(owner.0));
        }
    }
}

proof fn lemma_as_many_holders(
    directory: Seq<char>,
    names: Seq<Seq<char>>,
    live: Seq<u32>,
    windows: bool,
)
    ensures
        live_owners(directory, names, live, windows).len() == live_pids(names, live).len(),
    decreases names.len(),
{
    if names.len() > 0 {
        lemma_as_many_holders(directory, names.drop_last(), live, windows);
    }
}

/// The time of a file is read in nanoseconds since the epoch, in steps of a hundred.
pub proof fn law_file_times_are_counted_from_the_epoch(ticks: u64)
    ensures
        filetime_nanos(ticks) is None <==> ticks < 116_444_736_000_000_000,
        filetime_nanos(ticks) matches Some(nanos) ==> nanos < u64::MAX ==> nanos % 100 == 0 && nanos
            / 100 + 116_444_736_000_000_000 == ticks,
        filetime_nanos(ticks) == Some(u64::MAX) ==> ticks - 116_444_736_000_000_000 >= u64::MAX / 100,
{
}

/// A process is taken for the holder of a session exactly where its lock has its number, and where it
/// is Copilot: on Windows by its image, started before the lock was made, on Linux by its program and
/// by the session in its command. Elsewhere none is.
pub proof fn law_only_copilot_is_taken_over(
    owner: SessionOwner,
    session_id: Seq<char>,
    lock_content: Option<Seq<char>>,
    facts: OwnerFacts,
)
    ensures
        owner_refusal(owner, session_id, lock_content, facts) is None <==> {
            &&& lock_content matches Some(text) && crate::strings::trim(text) == crate::strings::decimal(
                owner.pid as nat,
            )
            &&& match facts {
                OwnerFacts::Windows { opened, image, created_ticks, lock_time } => {
                    &&& opened
                    &&& image matches Some(path) && program_name(path@, true) == "copilot.exe"@
                    &&& created_ticks matches Some(ticks) && filetime_nanos(ticks) matches Some(born)
                        && lock_time matches Some(made) && born <= made
                },
                OwnerFacts::Linux { pinned, command, executable } => {
                    &&& pinned
                    &&& command matches Some(bytes) && (crate::strings::nul_pieces(bytes@).contains(
                        vstd::utf8::encode_utf8("--resume="@ + session_id),
                    ) || crate::strings::nul_pieces(bytes@).contains(
                        vstd::utf8::encode_utf8("--session-id="@ + session_id),
                    ))
                    &&& executable matches Some(path) && (program_name(path@, false) == "copilot"@
                        || program_name(path@, false) == "copilot.exe"@)
                },
                OwnerFacts::OtherUnix => false,
            }
        },
{
}

/// A holder is asked to end first and given three seconds; it is killed only on Linux, only after that,
/// and given one second more. It counts as ended only where it was seen to be gone.
pub proof fn law_holders_are_asked_before_they_are_killed(
    platform: OwnerPlatform,
    pid: u32,
    stage: OwnerStage,
    done: bool,
    running: bool,
    next: OwnerStage,
)
    requires
        next_stage(platform, pid, stage, done, running, next),
    ensures
        next is Kill && !(stage is Kill) ==> stage is AwaitExit && platform == OwnerPlatform::Linux
            && !done,
        stage is Signal && next is AwaitExit ==> next == (OwnerStage::AwaitExit { millis: 3000 }),
        stage is Kill && next is AwaitDeath ==> done && next == (OwnerStage::AwaitDeath {
            millis: 1000,
        }),
        (stage is AwaitExit || stage is AwaitDeath) ==> (next is Ended <==> done),
        stage is Signal && next is Ended ==> platform == OwnerPlatform::Windows && !running,
        stage is Kill ==> (next is AwaitDeath <==> done),
{
}

/// Processes are listed by their numbers, in the order of the list, with a comma between them.
pub proof fn law_processes_are_listed_by_number(pids: Seq<u32>, pid: u32)
    ensures
        pid_list(Seq::empty()) == "[]"@,
        pid_list(seq![pid]) == "["@ + crate::strings::decimal(pid as nat) + "]"@,
        pids.len() > 0 ==> pid_items(pids.push(pid)) == pid_items(pids) + ", "@ + crate::strings::decimal(
            pid as nat,
        ),
{
    reveal_strlit("[");
    reveal_strlit("]");
    reveal_strlit("[]");
    assert(pid_list(Seq::empty()) =~= "[]"@);
    assert(pids.push(pid).drop_last() =~= pids);
}

} // verus!
