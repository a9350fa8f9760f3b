//! Stored sessions: what is known of each, and how it is shown.

use crate::paths::path_file_name;
use crate::strings::{append_text, decimal_text};
use vstd::prelude::*;

pub mod cleanup;
pub mod creation;
pub mod includes;
pub mod loader;
pub mod manager;
pub mod process;
pub mod registry;
pub mod worktree;

verus! {

/// A moment: seconds since the Unix epoch and nanoseconds behind them. In a leap second the
/// nanoseconds run on beyond a second.
#[derive(Clone, Copy, PartialEq, Eq, Structural, Debug)]
pub struct Timestamp {
    pub seconds: i64,
    pub nanos: u32,
}

impl Timestamp {
    /// The moments that the calendar knows.
    pub open spec fn valid(self) -> bool {
        &&& -8334601228800 <= self.seconds <= 8210266876799
        &&& self.nanos < 1_000_000_000 || (self.nanos < 2_000_000_000 && self.seconds as int % 60
            == 59)
    }

    /// Whether a moment comes before another.
    pub open spec fn precedes(self, other: Timestamp) -> bool {
        self.seconds < other.seconds || (self.seconds == other.seconds && self.nanos < other.nanos)
    }

    /// Whether a moment comes before another.
    pub fn is_before(&self, other: &Timestamp) -> (r: bool)
        ensures
            r == self.precedes(*other),
    {
        self.seconds < other.seconds || (self.seconds == other.seconds && self.nanos < other.nanos)
    }
}

/// The leap second to be counted between two times of day, or taken off.
pub open spec fn leap_between(now: Timestamp, then: Timestamp) -> int {
    let today = now.seconds as int % 86400;
    let back_then = then.seconds as int % 86400;
    if today > back_then && then.nanos >= 1_000_000_000 {
        1
    } else if today < back_then && now.nanos >= 1_000_000_000 {
        -1
    } else {
        0
    }
}

/// The nanoseconds between two moments.
pub open spec fn nanos_between(now: Timestamp, then: Timestamp) -> int {
    (now.seconds - then.seconds + leap_between(now, then)) * 1_000_000_000 + now.nanos - then.nanos
}

/// The whole seconds between two moments; a part of a second is dropped.
pub open spec fn seconds_between(now: Timestamp, then: Timestamp) -> int {
    if nanos_between(now, then) >= 0 {
        nanos_between(now, then) / 1_000_000_000
    } else {
        -(-nanos_between(now, then) / 1_000_000_000)
    }
}

/// `DateTime::signed_duration_since` of the `chrono` crate, and `TimeDelta::num_seconds` on what it
/// returns: the whole seconds between two moments, with a leap second counted where one of the two
/// moments lies in it.
#[verifier::external_body]
fn whole_seconds_between(now: Timestamp, then: Timestamp) -> (seconds: Option<i64>)
    requires
        now.valid(),
        then.valid(),
    ensures
        seconds is Some,
        seconds->0 == seconds_between(now, then),
{
    let later = chrono::DateTime::from_timestamp(now.seconds, now.nanos)?;
    let earlier = chrono::DateTime::from_timestamp(then.seconds, then.nanos)?;
    Some(later.signed_duration_since(earlier).num_seconds())
}

/// A session as its directory describes it.
#[derive(Debug)]
pub struct Session {
    pub id: String,
    pub cwd: String,
    pub project_root: String,
    pub summary: Option<String>,
    pub created_at: Option<Timestamp>,
    pub updated_at: Option<Timestamp>,
    pub is_active: bool,
    pub dir_path: String,
    pub edited_files: Vec<String>,
    pub last_user_message: Option<String>,
    pub turn_count: usize,
    pub tool_call_count: usize,
    pub details_parsed_len: u64,
}

/// The fields of a session's `workspace.yaml`.
#[derive(Debug)]
pub struct WorkspaceYaml {
    pub id: String,
    pub cwd: Option<String>,
    pub name: Option<String>,
    pub summary: Option<String>,
    pub summary_count: Option<u32>,
    pub created_at: Option<String>,
    pub updated_at: Option<String>,
}

/// How a number of seconds ago is told.
pub open spec fn ago(seconds: int) -> Seq<char> {
    if seconds < 60 {
        "just now"@
    } else if seconds < 3600 {
        decimal_of(seconds / 60) + "m ago"@
    } else if seconds < 86400 {
        decimal_of(seconds / 3600) + "h ago"@
    } else if seconds < 2592000 {
        decimal_of(seconds / 86400) + "d ago"@
    } else {
        decimal_of(seconds / 86400 / 30) + "mo ago"@
    }
}

/// The decimal form of a number that is not negative.
pub open spec fn decimal_of(n: int) -> Seq<char> {
    crate::strings::decimal(n as nat)
}

fn counted(n: u64, unit: &str) -> (text: String)
    ensures
        text@ == decimal_of(n as int) + unit@,
{
    let mut text = decimal_text(n);
    append_text(&mut text, unit);
    text
}

impl Session {
    /// When a session was last touched: when it was updated, or else created.
    pub open spec fn touched(self) -> Option<Timestamp> {
        if self.updated_at is Some {
            self.updated_at
        } else {
            self.created_at
        }
    }

    /// When a session was last touched.
    pub fn last_touched(&self) -> (at: Option<Timestamp>)
        ensures
            at == self.touched(),
    {
        match self.updated_at {
            Some(at) => Some(at),
            None => self.created_at,
        }
    }

    /// The name under which a session is listed.
    pub open spec fn listed_name(self) -> Seq<char> {
        match self.summary {
            Some(summary) if summary@.len() > 0 => summary@,
            _ => "(unnamed)"@,
        }
    }

    /// The name under which a session is listed.
    pub fn display_name(&self) -> (name: &str)
        ensures
            name@ == self.listed_name(),
    {
        match &self.summary {
            Some(summary) => {
                if summary.as_str().is_empty() {
                    "(unnamed)"
                } else {
                    summary.as_str()
                }
            },
            None => "(unnamed)",
        }
    }

    /// The name of the directory a session works in, or the whole of it where it ends in no name.
    pub fn project_name(&self, windows: bool) -> (name: String)
        ensures
            name@ == (match crate::paths::file_name(self.cwd@, windows) {
                Some(n) => n,
                None => self.cwd@,
            }),
    {
        match path_file_name(self.cwd.as_str(), windows) {
            Some(name) => name,
            None => self.cwd.clone(),
        }
    }

    /// How long ago a session was last touched.
    pub fn relative_time(&self, now: Timestamp) -> (text: String)
        requires
            now.valid(),
            self.touched() matches Some(at) ==> at.valid(),
        ensures
            text@ == (match self.touched() {
                Some(at) => ago(seconds_between(now, at)),
                None => "unknown"@,
            }),
    {
        match self.last_touched() {
            Some(at) => {
                let seconds: i64 = whole_seconds_between(now, at).unwrap();
                if seconds < 60 {
                    return "just now".to_owned();
                }
                let elapsed: u64 = seconds as u64;
                if elapsed < 3600 {
                    counted(elapsed / 60, "m ago")
                } else if elapsed < 86400 {
                    counted(elapsed / 3600, "h ago")
                } else if elapsed < 2592000 {
                    counted(elapsed / 86400, "d ago")
                } else {
                    counted(elapsed / 86400 / 30, "mo ago")
                }
            },
            None => "unknown".to_owned(),
        }
    }
}

/// How a time is told: in whole minutes below an hour, in whole hours below a day, in whole days below
/// thirty, and then in months of thirty days.
pub proof fn law_times_are_told_in_whole_units(seconds: int, number: int)
    ensures
        seconds < 60 ==> ago(seconds) == "just now"@,
        1 <= number < 60 && 60 * number <= seconds < 60 * number + 60 ==> ago(seconds)
            == crate::strings::decimal(number as nat) + "m ago"@,
        1 <= number < 24 && 3600 * number <= seconds < 3600 * number + 3600 ==> ago(seconds)
            == crate::strings::decimal(number as nat) + "h ago"@,
        1 <= number < 30 && 86400 * number <= seconds < 86400 * number + 86400 ==> ago(seconds)
            == crate::strings::decimal(number as nat) + "d ago"@,
        1 <= number && 2592000 * number <= seconds < 2592000 * number + 2592000 ==> ago(seconds)
            == crate::strings::decimal(number as nat) + "mo ago"@,
{
}

/// The time between two moments is the same both ways round, and between two that have the same part of
/// a second it is the difference of their seconds.
pub proof fn law_time_between_is_the_same_both_ways(now: Timestamp, before: Timestamp)
    ensures
        seconds_between(before, now) == -seconds_between(now, before),
        now.nanos == before.nanos && now.nanos < 1_000_000_000 ==> seconds_between(now, before)
            == now.seconds - before.seconds,
{
    assert(nanos_between(before, now) == -nanos_between(now, before));
}

/// A moment comes before another exactly where its second does, or within one second its part of it.
pub proof fn law_moments_are_in_order(a: Timestamp, b: Timestamp)
    ensures
        a.seconds < b.seconds ==> a.precedes(b) && !b.precedes(a),
        a.seconds == b.seconds ==> (a.precedes(b) <==> a.nanos < b.nanos),
{
}

/// A session is listed under its summary, and has a name even where that is empty.
pub proof fn law_every_session_has_a_name(session: Session)
    ensures
        session.listed_name().len() > 0,
        session.summary matches Some(summary) ==> summary@.len() > 0 ==> session.listed_name()
            == summary@,
        session.summary is None ==> session.listed_name() == "(unnamed)"@,
{
    reveal_strlit("(unnamed)");
}

} // verus!
