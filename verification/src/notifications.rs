//! Push notifications: what they say, which reply of the assistant they quote, and when delivery is
//! tried again.

use crate::strings::{
    char_width, chars_of, contains_text, control, holds_text, is_control, lemma_trim_ends, lines,
    lines_of, lossy_utf8, same_text, text_between, text_of_bytes, text_views, trim, trim_range,
    trimmed, utf8_width, white, width_of_char,
};
use vstd::prelude::*;
use vstd::utf8::{encode_scalar, encode_utf8};

verus! {

/// How often delivery is tried.
pub const ATTEMPTS: usize = 2;

/// The characters of a session title that a notification shows.
pub const MAX_TITLE_CHARS: usize = 120;

/// The bytes a message may have.
pub const MAX_MESSAGE_BYTES: usize = 3_500;

/// How far back an event log is read.
pub const EVENT_TAIL_BYTES: u64 = 2_097_152;

/// What a notification is about.
#[derive(Clone, Copy, Debug, PartialEq, Eq, Structural)]
pub enum NotificationKind {
    Ready,
    Question,
    PlanApproval,
    Error,
}

impl NotificationKind {
    /// The status line.
    pub open spec fn status(self) -> Seq<char> {
        match self {
            NotificationKind::Error => "Copilot reported an error"@,
            _ => "Ready for attention"@,
        }
    }

    /// The status line.
    pub fn message(self) -> (text: &'static str)
        ensures
            text@ == self.status(),
    {
        match self {
            NotificationKind::Error => "Copilot reported an error",
            _ => "Ready for attention",
        }
    }

    /// How urgent the notification is: an error is high, everything else is the default.
    pub fn priority(self) -> (priority: u8)
        ensures
            priority == (if self == NotificationKind::Error { 4u8 } else { 3u8 }),
    {
        match self {
            NotificationKind::Error => 4,
            _ => 3,
        }
    }

    /// The two tags shown as symbols.
    pub fn tags(self) -> (tags: (&'static str, &'static str))
        ensures
            tags.0@ == "robot"@,
            tags.1@ == (if self == NotificationKind::Error {
                "warning"@
            } else {
                "question"@
            }),
    {
        match self {
            NotificationKind::Error => ("robot", "warning"),
            _ => ("robot", "question"),
        }
    }
}

/// A notification to be delivered. The event range is the part of the session's event log that
/// belongs to the work cycle it is about.
#[derive(Debug)]
pub struct NotificationRequest {
    pub server: String,
    pub topic: String,
    pub access_token: String,
    pub verbose: bool,
    pub session_title: String,
    pub kind: NotificationKind,
    pub events_path: Option<String>,
    pub events_start: Option<u64>,
    pub events_end: Option<u64>,
}

/// How a delivery went.
#[derive(Debug, PartialEq, Eq)]
pub struct NotificationResult {
    pub result: Result<(), String>,
}

/// The queue between the program and the delivery: requests are delivered one at a time, in the
/// order in which they came, and results are handed out in that order.
pub struct NotificationWorker {
    pub requests: Vec<NotificationRequest>,
    pub results: Vec<NotificationResult>,
    pub stopped: bool,
}

impl NotificationWorker {
    /// An empty queue.
    pub fn start() -> (worker: Self)
        ensures
            worker.requests@.len() == 0,
            worker.results@.len() == 0,
            !worker.stopped,
    {
        NotificationWorker { requests: Vec::new(), results: Vec::new(), stopped: false }
    }

    /// Adds a request behind the others; a stopped queue takes none.
    pub fn enqueue(&mut self, request: NotificationRequest) -> (r: Result<(), String>)
        ensures
            match r {
                Ok(_) => {
                    &&& !old(self).stopped
                    &&& final(self).requests@ == old(self).requests@.push(request)
                    &&& *final(self) == (NotificationWorker {
                        requests: final(self).requests,
                        ..*old(self)
                    })
                },
                Err(error) => {
                    &&& old(self).stopped
                    &&& error@ == "notification worker stopped"@
                    &&& *final(self) == *old(self)
                },
            },
    {
        if self.stopped {
            return Err("notification worker stopped".to_owned());
        }
        self.requests.push(request);
        Ok(())
    }

    /// The request that is to be delivered next.
    pub fn next_request(&mut self) -> (request: Option<NotificationRequest>)
        ensures
            match request {
                Some(next) => {
                    &&& old(self).requests@.len() > 0
                    &&& next == old(self).requests@[0]
                    &&& final(self).requests@ == old(self).requests@.drop_first()
                    &&& *final(self) == (NotificationWorker {
                        requests: final(self).requests,
                        ..*old(self)
                    })
                },
                None => old(self).requests@.len() == 0 && *final(self) == *old(self),
            },
    {
        if self.requests.len() == 0 {
            return None;
        }
        let next = self.requests.remove(0);
        assert(self.requests@ == old(self).requests@.drop_first());
        Some(next)
    }

    /// Records how a delivery went.
    pub fn finish(&mut self, result: Result<(), String>)
        ensures
            final(self).results@ == old(self).results@.push(NotificationResult { result }),
            *final(self) == (NotificationWorker { results: final(self).results, ..*old(self) }),
    {
        self.results.push(NotificationResult { result });
    }

    /// The oldest result that was not handed out yet.
    pub fn try_result(&mut self) -> (result: Option<NotificationResult>)
        ensures
            match result {
                Some(oldest) => {
                    &&& old(self).results@.len() > 0
                    &&& oldest == old(self).results@[0]
                    &&& final(self).results@ == old(self).results@.drop_first()
                    &&& *final(self) == (NotificationWorker {
                        results: final(self).results,
                        ..*old(self)
                    })
                },
                None => old(self).results@.len() == 0 && *final(self) == *old(self),
            },
    {
        if self.results.len() == 0 {
            return None;
        }
        let oldest = self.results.remove(0);
        assert(self.results@ == old(self).results@.drop_first());
        Some(oldest)
    }
}

/// Why a delivery failed.
#[derive(Clone, Copy, Debug, PartialEq, Eq, Structural)]
pub enum PublishFailure {
    InvalidServer,
    InvalidTopic,
    InvalidToken,
    /// The server answered with an error status.
    Status(u16),
    /// The request could not be made.
    BadRequest,
    /// The server was not reached.
    Unreachable,
}

impl PublishFailure {
    /// The message for the user, which holds nothing of the request.
    pub open spec fn text(self) -> Seq<char> {
        match self {
            PublishFailure::InvalidServer => "invalid ntfy server configuration"@,
            PublishFailure::InvalidTopic => "invalid ntfy topic configuration"@,
            PublishFailure::InvalidToken => "invalid ntfy access token configuration"@,
            PublishFailure::Status(code) => if code >= 500 {
                "ntfy server returned an error"@
            } else {
                "ntfy rejected the notification"@
            },
            PublishFailure::BadRequest => "invalid ntfy request"@,
            PublishFailure::Unreachable => "could not reach the ntfy server"@,
        }
    }

    /// Whether another attempt may help: only where the server is at fault or was not reached.
    pub open spec fn transient(self) -> bool {
        match self {
            PublishFailure::Status(code) => code >= 500,
            PublishFailure::Unreachable => true,
            _ => false,
        }
    }

    /// The message for the user.
    pub fn message(self) -> (text: &'static str)
        ensures
            text@ == self.text(),
    {
        match self {
            PublishFailure::InvalidServer => "invalid ntfy server configuration",
            PublishFailure::InvalidTopic => "invalid ntfy topic configuration",
            PublishFailure::InvalidToken => "invalid ntfy access token configuration",
            PublishFailure::Status(code) => {
                if code >= 500 {
                    "ntfy server returned an error"
                } else {
                    "ntfy rejected the notification"
                }
            },
            PublishFailure::BadRequest => "invalid ntfy request",
            PublishFailure::Unreachable => "could not reach the ntfy server",
        }
    }

    /// Whether another attempt may help.
    pub fn retryable(self) -> (r: bool)
        ensures
            r == self.transient(),
    {
        match self {
            PublishFailure::Status(code) => code >= 500,
            PublishFailure::Unreachable => true,
            _ => false,
        }
    }
}

/// What follows an attempt at delivery.
#[derive(Clone, Copy, Debug, PartialEq, Eq, Structural)]
pub enum RetryStep {
    Delivered,
    /// Wait a moment and try again.
    Retry,
    Failed(PublishFailure),
}

/// What follows the attempt with a number, counted from zero.
pub fn publish_with_retry(attempt: usize, outcome: Result<(), PublishFailure>) -> (step: RetryStep)
    requires
        attempt < ATTEMPTS,
    ensures
        step == (match outcome {
            Ok(_) => RetryStep::Delivered,
            Err(failure) => if failure.transient() && attempt + 1 < ATTEMPTS {
                RetryStep::Retry
            } else {
                RetryStep::Failed(failure)
            },
        }),
{
    match outcome {
        Ok(_) => RetryStep::Delivered,
        Err(failure) => {
            if failure.retryable() && attempt + 1 < ATTEMPTS {
                RetryStep::Retry
            } else {
                RetryStep::Failed(failure)
            }
        },
    }
}

/// What is sent to the server.
#[derive(Debug)]
pub struct Publication {
    pub topic: String,
    pub message: String,
    pub title: String,
    pub priority: u8,
    pub tags: (&'static str, &'static str),
    /// The authorization header, where a token is configured.
    pub authorization: Option<String>,
}

/// Which parts of a request's configuration are valid.
#[derive(Clone, Copy, Debug, PartialEq, Eq, Structural)]
pub struct ConfigCheck {
    pub server: bool,
    pub topic: bool,
    pub token: bool,
}

/// The first part of a configuration that is not valid.
pub open spec fn config_failure(check: ConfigCheck) -> Option<PublishFailure> {
    if !check.server {
        Some(PublishFailure::InvalidServer)
    } else if !check.topic {
        Some(PublishFailure::InvalidTopic)
    } else if !check.token {
        Some(PublishFailure::InvalidToken)
    } else {
        None
    }
}

/// What to send for a request. `context` is the reply of the assistant that a verbose notification
/// quotes, where there is one. The token goes into the header and into nothing else.
pub fn publish_once(request: &NotificationRequest, check: ConfigCheck, context: Option<String>) -> (r:
    Result<Publication, PublishFailure>)
    ensures
        match r {
            Ok(p) => {
                &&& config_failure(check) is None
                &&& p.topic@ == trim(request.topic@)
                &&& p.message@ == message_text(
                    request.kind,
                    request.verbose,
                    quotes_cycle(*request),
                    match context {
                        Some(c) => Some(c@),
                        None => None,
                    },
                )
                &&& p.title@ == title_text(request.session_title@)
                &&& p.priority == (if request.kind == NotificationKind::Error { 4u8 } else { 3u8 })
                &&& p.tags.0@ == "robot"@
                &&& p.tags.1@ == (if request.kind == NotificationKind::Error {
                    "warning"@
                } else {
                    "question"@
                })
                &&& match p.authorization {
                    Some(header) => trim(request.access_token@).len() > 0 && header@ == "Bearer "@
                        + trim(request.access_token@),
                    None => trim(request.access_token@).len() == 0,
                }
            },
            Err(failure) => config_failure(check) == Some(failure),
        },
{
    if !check.server {
        return Err(PublishFailure::InvalidServer);
    }
    if !check.topic {
        return Err(PublishFailure::InvalidTopic);
    }
    if !check.token {
        return Err(PublishFailure::InvalidToken);
    }
    let token = trimmed(request.access_token.as_str());
    let authorization = if token.as_str().is_empty() {
        None
    } else {
        let mut header = "Bearer ".to_owned();
        header.append(token.as_str());
        Some(header)
    };
    Ok(
        Publication {
            topic: trimmed(request.topic.as_str()),
            message: notification_message(request, context),
            title: notification_title(request.session_title.as_str()),
            priority: request.kind.priority(),
            tags: request.kind.tags(),
            authorization,
        },
    )
}

/// Whether a request is about a work cycle whose reply can be quoted: it is ready, and its part of
/// the event log is known and not empty.
pub open spec fn quotes_cycle(request: NotificationRequest) -> bool {
    &&& request.kind == NotificationKind::Ready
    &&& request.events_path is Some
    &&& request.events_start is Some
    &&& request.events_end is Some
    &&& request.events_end->0 > request.events_start->0
}

/// The message of a notification: the status alone, or with the reply of the assistant, or with a
/// note that there is none.
pub open spec fn message_text(
    kind: NotificationKind,
    verbose: bool,
    quoting: bool,
    context: Option<Seq<char>>,
) -> Seq<char> {
    if !verbose {
        kind.status()
    } else {
        match context {
            Some(c) if quoting => truncated_utf8(
                kind.status() + "\n\n"@ + c,
                MAX_MESSAGE_BYTES as int,
            ),
            _ => kind.status() + "\n\nNo assistant response was persisted for this work cycle."@,
        }
    }
}

/// Whether a request is about a work cycle whose reply can be quoted.
pub fn wants_context(request: &NotificationRequest) -> (r: bool)
    ensures
        r == (request.verbose && quotes_cycle(*request)),
{
    if !request.verbose || request.kind != NotificationKind::Ready || request.events_path.is_none() {
        return false;
    }
    match (request.events_start, request.events_end) {
        (Some(start), Some(end)) => end > start,
        _ => false,
    }
}

/// The message of a notification.
pub fn notification_message(request: &NotificationRequest, context: Option<String>) -> (message:
    String)
    ensures
        message@ == message_text(
            request.kind,
            request.verbose,
            quotes_cycle(*request),
            match context {
                Some(c) => Some(c@),
                None => None,
            },
        ),
{
    let status = request.kind.message();
    if !request.verbose {
        return status.to_owned();
    }
    let quoting = wants_context(request);
    let mut message = status.to_owned();
    match context {
        Some(c) => {
            if quoting {
                message.append("\n\n");
                message.append(c.as_str());
                return truncate_utf8(message.as_str(), MAX_MESSAGE_BYTES);
            }
        },
        None => {},
    }
    message.append("\n\nNo assistant response was persisted for this work cycle.");
    message
}

/// The part of an event log that is read for a work cycle: from where on, and up to where. A log that
/// is shorter than the cycle counts as it is, and no more than its tail is read.
pub open spec fn log_window(file_length: u64, start: u64, end: u64) -> Option<(u64, u64)> {
    let length = if file_length < end {
        file_length
    } else {
        end
    };
    let tail = if length > EVENT_TAIL_BYTES {
        length - EVENT_TAIL_BYTES
    } else {
        0
    };
    let from = if start as int > tail {
        start as int
    } else {
        tail
    };
    if from >= length {
        None
    } else {
        Some((from as u64, length))
    }
}

/// The part of an event log that is read for a work cycle.
pub fn event_window(file_length: u64, cycle_start: u64, cycle_end: u64) -> (window: Option<
    (u64, u64),
>)
    ensures
        window == log_window(file_length, cycle_start, cycle_end),
{
    let length: u64 = if file_length < cycle_end {
        file_length
    } else {
        cycle_end
    };
    let tail: u64 = length.saturating_sub(EVENT_TAIL_BYTES);
    let from: u64 = if cycle_start > tail {
        cycle_start
    } else {
        tail
    };
    if from >= length {
        None
    } else {
        Some((from, length))
    }
}

/// Whether a part of an event log begins inside a line, by where it starts and the byte before that.
pub fn begins_inside_a_line(start: u64, previous: Option<u8>) -> (r: bool)
    ensures
        r == (start > 0 && previous != Some(0x0au8)),
{
    start > 0 && match previous {
        Some(byte) => byte != 0x0a,
        None => true,
    }
}

/// The string that a JSON text has at a pointer: absent where the text is no JSON, or has no string
/// there.
pub uninterp spec fn json_string_at(text: Seq<char>, pointer: Seq<char>) -> Option<Seq<char>>;

/// `from_str` and `Value::pointer` of the `serde_json` crate: the string at a pointer of a JSON text.
/// What it is depends on the text and the pointer alone; the grammar is left to the crate.
#[verifier::external_body]
fn json_string(text: &str, pointer: &str) -> (r: Option<String>)
    ensures
        match r {
            Some(s) => json_string_at(text@, pointer@) == Some(s@),
            None => json_string_at(text@, pointer@) is None,
        },
{
    let value = serde_json::from_str::<serde_json::Value>(text).ok()?;
    value.pointer(pointer)?.as_str().map(str::to_string)
}

/// A message as it is quoted: carriage returns are dropped, other control characters but newlines
/// and tabs become spaces, and surrounding whitespace goes.
pub open spec fn quoted(message: Seq<char>) -> Seq<char> {
    trim(
        message.filter(|c: char| c != '\r').map_values(
            |c: char| if control(c) && c != '\n' && c != '\t' { ' ' } else { c },
        ),
    )
}

/// The quotable message of an event with a type and a content: that of an assistant message, where
/// anything of it is left.
pub open spec fn event_message(kind: Option<Seq<char>>, content: Option<Seq<char>>) -> Option<
    Seq<char>,
> {
    if kind == Some("assistant.message"@) {
        match content {
            Some(c) => if quoted(c).len() > 0 {
                Some(quoted(c))
            } else {
                None
            },
            None => None,
        }
    } else {
        None
    }
}

/// The quotable message of a line of an event log.
pub open spec fn line_message(line: Seq<char>) -> Option<Seq<char>> {
    if contains_text(line, "assistant.message"@) {
        event_message(json_string_at(line, "/type"@), json_string_at(line, "/data/content"@))
    } else {
        None
    }
}

/// The quotable message of the last line that has one.
pub open spec fn last_message(log: Seq<Seq<char>>) -> Option<Seq<char>>
    decreases log.len(),
{
    if log.len() == 0 {
        None
    } else {
        match line_message(log.last()) {
            Some(m) => Some(m),
            None => last_message(log.drop_last()),
        }
    }
}

/// The lines of a part of an event log, without the first where it is only the end of one.
pub open spec fn log_lines(text: Seq<char>, skip_partial: bool) -> Seq<Seq<char>> {
    let all = lines(text);
    if skip_partial && all.len() > 0 {
        all.drop_first()
    } else {
        all
    }
}

/// The quotable message of an event with a type and a content.
pub fn message_of_event(kind: Option<String>, content: Option<String>) -> (message: Option<String>)
    ensures
        ({
            let k = match kind {
                Some(s) => Some(s@),
                None => None,
            };
            let c = match content {
                Some(s) => Some(s@),
                None => None,
            };
            match message {
                Some(m) => event_message(k, c) == Some(m@),
                None => event_message(k, c) is None,
            }
        }),
{
    match (kind, content) {
        (Some(k), Some(c)) => {
            if same_text(k.as_str(), "assistant.message") {
                let message = sanitize_message(c.as_str());
                if message.as_str().is_empty() {
                    None
                } else {
                    Some(message)
                }
            } else {
                None
            }
        },
        _ => None,
    }
}

/// The latest message of the assistant in a part of an event log. `skip_partial` says that the part
/// starts inside a line.
pub fn latest_assistant_message(bytes: &Vec<u8>, skip_partial: bool) -> (message: Option<String>)
    ensures
        match message {
            Some(m) => last_message(log_lines(lossy_utf8(bytes@), skip_partial)) == Some(m@),
            None => last_message(log_lines(lossy_utf8(bytes@), skip_partial)) is None,
        },
{
    let text = text_of_bytes(bytes);
    let all = lines_of(&chars_of(text.as_str()));
    let ghost views = lines(text@);
    let first: usize = if skip_partial && all.len() > 0 {
        1
    } else {
        0
    };
    let ghost kept = log_lines(text@, skip_partial);
    assert(kept == views.skip(first as int));
    let mut i: usize = all.len();
    assert(kept.take(i - first) == kept);
    while i > first
        invariant
            first <= i <= all@.len(),
            text_views(all@) == views,
            kept == views.skip(first as int),
            kept == log_lines(lossy_utf8(bytes@), skip_partial),
            last_message(kept) == last_message(kept.take(i - first)),
        decreases i,
    {
        i = i - 1;
        let line = &all[i];
        proof {
            assert(kept.take(i - first + 1).last() == views[i as int]);
            assert(views[i as int] == line@);
            assert(kept.take(i - first + 1).drop_last() == kept.take(i - first));
        }
        if holds_text(line.as_str(), "assistant.message") {
            let kind = json_string(line.as_str(), "/type");
            let content = json_string(line.as_str(), "/data/content");
            let found = message_of_event(kind, content);
            if found.is_some() {
                return found;
            }
        }
    }
    assert(kept.take(0) == Seq::<Seq<char>>::empty());
    None
}

/// A message as it is quoted.
pub fn sanitize_message(message: &str) -> (clean: String)
    ensures
        clean@ == quoted(message@),
{
    let chars = chars_of(message);
    let ghost keep = |c: char| c != '\r';
    let ghost clean = |c: char| if control(c) && c != '\n' && c != '\t' { ' ' } else { c };
    let mut kept: Vec<char> = Vec::new();
    let mut i: usize = 0;
    proof {
        reveal(Seq::filter);
        assert(message@.take(0).filter(keep).map_values(clean) =~= kept@);
    }
    while i < chars.len()
        invariant
            i <= chars@.len(),
            chars@ == message@,
            keep == (|c: char| c != '\r'),
            clean == (|c: char| if control(c) && c != '\n' && c != '\t' { ' ' } else { c }),
            kept@ == message@.take(i as int).filter(keep).map_values(clean),
        decreases chars@.len() - i,
    {
        let c = chars[i];
        let ghost so_far = message@.take(i as int).filter(keep);
        proof {
            reveal(Seq::filter);
            assert(message@.take(i + 1).drop_last() == message@.take(i as int));
            assert(message@.take(i + 1).last() == c);
        }
        if c != '\r' {
            if is_control(c) && c != '\n' && c != '\t' {
                kept.push(' ');
            } else {
                kept.push(c);
            }
            assert(so_far.push(c).map_values(clean) =~= so_far.map_values(clean).push(clean(c)));
        }
        i = i + 1;
    }
    assert(message@.take(i as int) == message@);
    let range = trim_range(&kept);
    let text = text_between(&kept, range.0, range.1);
    assert(kept@ == message@.filter(keep).map_values(clean));
    text
}

/// The number of leading characters of a text that fit a number of bytes, where the first `n` do.
pub open spec fn fitting(s: Seq<char>, n: int, bytes: int) -> int
    decreases s.len() - n,
{
    if 0 <= n < s.len() && utf8_width(s.take(n + 1)) <= bytes {
        fitting(s, n + 1, bytes)
    } else {
        n
    }
}

/// A text cut to a number of bytes: whole where it fits, else as many characters as leave room for
/// the ellipsis behind them.
pub open spec fn truncated_utf8(s: Seq<char>, max_bytes: int) -> Seq<char> {
    if utf8_width(s) <= max_bytes {
        s
    } else {
        s.take(fitting(s, 0, max_bytes - 3)).push('…')
    }
}

/// The width of a text is the length of its encoding.
pub proof fn lemma_width_is_encoded_length(s: Seq<char>)
    ensures
        encode_utf8(s).len() == utf8_width(s),
    decreases s.len(),
{
    if s.len() > 0 {
        lemma_width_is_encoded_length(s.drop_last());
        lemma_encode_push(s.drop_last(), s.last());
        assert(s.drop_last().push(s.last()) == s);
    }
}

proof fn lemma_encode_push(s: Seq<char>, c: char)
    ensures
        encode_utf8(s.push(c)) == encode_utf8(s) + encode_scalar(c as u32),
        encode_scalar(c as u32).len() == char_width(c),
    decreases s.len(),
{
    if s.len() == 0 {
        assert(s.push(c).drop_first() == Seq::<char>::empty());
        assert(encode_utf8(Seq::<char>::empty()) == Seq::<u8>::empty());
        assert(encode_utf8(s) == Seq::<u8>::empty());
        assert(encode_utf8(s.push(c)) =~= encode_scalar(c as u32));
    } else {
        lemma_encode_push(s.drop_first(), c);
        assert(s.push(c).drop_first() == s.drop_first().push(c));
        assert(encode_utf8(s.push(c)) =~= encode_utf8(s) + encode_scalar(c as u32));
    }
}

proof fn lemma_width_monotone(s: Seq<char>, n: int)
    requires
        0 <= n <= s.len(),
    ensures
        utf8_width(s.take(n)) <= utf8_width(s),
    decreases s.len() - n,
{
    if n == s.len() {
        assert(s.take(n) == s);
    } else {
        lemma_width_monotone(s.drop_last(), n);
        assert(s.drop_last().take(n) == s.take(n));
    }
}

/// A text cut to a number of bytes, at a character.
pub fn truncate_utf8(message: &str, max_bytes: usize) -> (r: String)
    ensures
        r@ == truncated_utf8(message@, max_bytes as int),
{
    let chars = chars_of(message);
    let count: usize = chars.len();
    let mut end: usize = 0;
    let mut width: usize = 0;
    let mut cut: usize = 0;
    let ghost budget = max_bytes - 3;
    let mut growing = true;
    while end < count
        invariant
            end <= count,
            count == chars@.len(),
            chars@ == message@,
            budget == max_bytes - 3,
            width == utf8_width(message@.take(end as int)),
            width <= max_bytes,
            cut <= end,
            growing ==> cut == end && fitting(message@, 0, budget) == fitting(
                message@,
                cut as int,
                budget,
            ),
            !growing ==> cut == fitting(message@, 0, budget),
        decreases count - end,
    {
        let step: usize = width_of_char(chars[end]);
        proof {
            assert(message@.take(end + 1).drop_last() == message@.take(end as int));
            assert(message@.take(end + 1).last() == chars@[end as int]);
        }
        if step > max_bytes - width {
            proof {
                lemma_width_monotone(message@, end + 1);
                assert(utf8_width(message@.take(end + 1)) > max_bytes);
            }
            let mut text = text_between(&chars, 0, cut);
            text.push('…');
            assert(text@ == message@.take(cut as int).push('…'));
            return text;
        }
        width = width + step;
        if growing {
            if max_bytes >= 3 && width <= max_bytes - 3 {
                cut = end + 1;
            } else {
                growing = false;
            }
        }
        end = end + 1;
    }
    assert(message@.take(end as int) == message@);
    message.to_owned()
}

/// A title as it is shown: control characters become spaces, and it is cut to its length and then
/// trimmed.
pub open spec fn title_text(title: Seq<char>) -> Seq<char> {
    let shown = if title.len() < MAX_TITLE_CHARS {
        title
    } else {
        title.take(MAX_TITLE_CHARS as int)
    };
    let clean = trim(shown.map_values(|c: char| if control(c) { ' ' } else { c }));
    if clean.len() == 0 {
        "CST · Session"@
    } else {
        "CST · "@ + clean
    }
}

/// The title of a notification.
pub fn notification_title(title: &str) -> (r: String)
    ensures
        r@ == title_text(title@),
{
    let chars = chars_of(title);
    let count: usize = if chars.len() < MAX_TITLE_CHARS {
        chars.len()
    } else {
        MAX_TITLE_CHARS
    };
    let ghost clean = |c: char| if control(c) { ' ' } else { c };
    let ghost shown = title@.take(count as int);
    assert(title@.len() < MAX_TITLE_CHARS ==> shown == title@);
    let mut kept: Vec<char> = Vec::new();
    let mut i: usize = 0;
    while i < count
        invariant
            i <= count <= chars@.len(),
            chars@ == title@,
            clean == (|c: char| if control(c) { ' ' } else { c }),
            shown == title@.take(count as int),
            kept@ == shown.take(i as int).map_values(clean),
        decreases count - i,
    {
        let c = chars[i];
        if is_control(c) {
            kept.push(' ');
        } else {
            kept.push(c);
        }
        assert(kept@ =~= shown.take(i + 1).map_values(clean));
        i = i + 1;
    }
    assert(shown.take(i as int) == shown);
    let range = trim_range(&kept);
    if range.0 == range.1 {
        return "CST · Session".to_owned();
    }
    let mut r = "CST · ".to_owned();
    r.append(text_between(&kept, range.0, range.1).as_str());
    r
}

proof fn lemma_fitting(s: Seq<char>, n: int, bytes: int)
    requires
        0 <= n <= s.len(),
        utf8_width(s.take(n)) <= bytes,
    ensures
        n <= fitting(s, n, bytes) <= s.len(),
        utf8_width(s.take(fitting(s, n, bytes))) <= bytes,
    decreases s.len() - n,
{
    if n < s.len() && utf8_width(s.take(n + 1)) <= bytes {
        lemma_fitting(s, n + 1, bytes);
    }
}

/// A cut message never has more bytes than it may, wherever there is room for the ellipsis at all,
/// and what stands before the ellipsis is a beginning of the message.
pub proof fn law_cut_message_fits(message: Seq<char>, max_bytes: int)
    requires
        max_bytes >= 3,
    ensures
        encode_utf8(truncated_utf8(message, max_bytes)).len() <= max_bytes,
        truncated_utf8(message, max_bytes) == message || exists|n: int|
            0 <= n <= message.len() && truncated_utf8(message, max_bytes) == #[trigger] message.take(
                n,
            ).push('…'),
{
    lemma_width_is_encoded_length(truncated_utf8(message, max_bytes));
    if utf8_width(message) > max_bytes {
        assert(message.take(0) == Seq::<char>::empty());
        lemma_fitting(message, 0, max_bytes - 3);
        let kept = message.take(fitting(message, 0, max_bytes - 3));
        assert(kept.push('…').drop_last() == kept);
        assert(char_width('…') == 3);
    }
}

/// A title has at most its bound of characters behind the program's mark, and no control character.
pub proof fn law_title_is_bounded_and_clean(title: Seq<char>)
    ensures
        title_text(title).len() <= "CST · "@.len() + MAX_TITLE_CHARS,
        forall|i: int|
            0 <= i < title_text(title).len() ==> !control(#[trigger] title_text(title)[i]),
{
    reveal_strlit("CST · Session");
    reveal_strlit("CST · ");
    let shown = if title.len() < MAX_TITLE_CHARS {
        title
    } else {
        title.take(MAX_TITLE_CHARS as int)
    };
    let clean = shown.map_values(|c: char| if control(c) { ' ' } else { c });
    lemma_trim_is_part(clean);
    let kept = trim(clean);
    assert forall|i: int| 0 <= i < kept.len() implies !control(#[trigger] kept[i]) by {
        assert(clean.contains(kept[i]));
        let j = choose|j: int| 0 <= j < clean.len() && clean[j] == kept[i];
        assert(!control(clean[j]));
    }
}

proof fn lemma_trim_is_part(s: Seq<char>)
    ensures
        trim(s).len() <= s.len(),
        forall|i: int| 0 <= i < trim(s).len() ==> s.contains(#[trigger] trim(s)[i]),
{
    lemma_trim_start_is_part(s);
    lemma_trim_end_is_part(crate::strings::trim_start(s));
    let start = crate::strings::trim_start(s);
    assert forall|i: int| 0 <= i < trim(s).len() implies s.contains(#[trigger] trim(s)[i]) by {
        assert(start.contains(trim(s)[i]));
        let j = choose|j: int| 0 <= j < start.len() && start[j] == trim(s)[i];
        assert(s.contains(start[j]));
    }
}

proof fn lemma_trim_start_is_part(s: Seq<char>)
    ensures
        crate::strings::trim_start(s).len() <= s.len(),
        forall|i: int|
            0 <= i < crate::strings::trim_start(s).len() ==> s.contains(
                #[trigger] crate::strings::trim_start(s)[i],
            ),
    decreases s.len(),
{
    if s.len() > 0 && crate::strings::white(s[0]) {
        lemma_trim_start_is_part(s.drop_first());
        let rest = crate::strings::trim_start(s.drop_first());
        assert forall|i: int| 0 <= i < rest.len() implies s.contains(#[trigger] rest[i]) by {
            assert(s.drop_first().contains(rest[i]));
            let j = choose|j: int| 0 <= j < s.drop_first().len() && s.drop_first()[j] == rest[i];
            assert(s[j + 1] == rest[i]);
        }
    }
}

proof fn lemma_trim_end_is_part(s: Seq<char>)
    ensures
        crate::strings::trim_end(s).len() <= s.len(),
        forall|i: int|
            0 <= i < crate::strings::trim_end(s).len() ==> s.contains(
                #[trigger] crate::strings::trim_end(s)[i],
            ),
    decreases s.len(),
{
    if s.len() > 0 && crate::strings::white(s.last()) {
        lemma_trim_end_is_part(s.drop_last());
        let rest = crate::strings::trim_end(s.drop_last());
        assert forall|i: int| 0 <= i < rest.len() implies s.contains(#[trigger] rest[i]) by {
            assert(s.drop_last().contains(rest[i]));
            let j = choose|j: int| 0 <= j < s.drop_last().len() && s.drop_last()[j] == rest[i];
            assert(s[j] == rest[i]);
        }
    }
}

/// Whether a message can be quoted as it is: it has no control characters but newlines and tabs, and
/// neither begins nor ends with whitespace.
pub open spec fn quotable(message: Seq<char>) -> bool {
    &&& forall|i: int|
        0 <= i < message.len() ==> (control(#[trigger] message[i]) ==> message[i] == '\n'
            || message[i] == '\t')
    &&& message.len() > 0 ==> !white(message[0]) && !white(message.last())
}

/// Whatever a message holds, it is quoted without control characters but newlines and tabs and
/// without surrounding whitespace. Quoting what was quoted changes nothing.
pub proof fn law_quoted_messages_are_clean(message: Seq<char>)
    ensures
        quotable(quoted(message)),
        quoted(quoted(message)) == quoted(message),
{
    let kept = message.filter(|c: char| c != '\r');
    let clean = kept.map_values(
        |c: char| if control(c) && c != '\n' && c != '\t' { ' ' } else { c },
    );
    let text = trim(clean);
    lemma_trim_is_part(clean);
    lemma_trim_ends(clean);
    assert forall|i: int| 0 <= i < text.len() implies (!control(#[trigger] text[i])
        || text[i] == '\n' || text[i] == '\t') by {
        assert(clean.contains(text[i]));
        let j = choose|j: int| 0 <= j < clean.len() && clean[j] == text[i];
        assert(!control(' '));
        assert(clean[j] == text[i]);
    }
    law_clean_messages_are_quoted_as_they_are(text);
}

/// A message that can be quoted as it is, is.
pub proof fn law_clean_messages_are_quoted_as_they_are(message: Seq<char>)
    requires
        quotable(message),
    ensures
        quoted(message) == message,
{
    lemma_no_carriage_returns(message);
    let clean = message.map_values(
        |c: char| if control(c) && c != '\n' && c != '\t' { ' ' } else { c },
    );
    assert(clean =~= message);
}

proof fn lemma_no_carriage_returns(text: Seq<char>)
    requires
        forall|i: int|
            0 <= i < text.len() ==> (control(#[trigger] text[i]) ==> text[i] == '\n' || text[i]
                == '\t'),
    ensures
        text.filter(|c: char| c != '\r') == text,
    decreases text.len(),
{
    reveal(Seq::filter);
    if text.len() > 0 {
        lemma_no_carriage_returns(text.drop_last());
        assert(control('\r'));
        assert(text.last() == text[text.len() - 1]);
        assert(text.drop_last().push(text.last()) =~= text);
    }
}

/// No part of an event log outside the work cycle is read for its notification.
pub proof fn law_only_the_work_cycle_is_read(file_length: u64, start: u64, end: u64)
    ensures
        log_window(file_length, start, end) matches Some((from, to)) ==> {
            &&& start <= from < to <= end
            &&& to <= file_length
            &&& to - from <= EVENT_TAIL_BYTES
        },
{
}

/// A message that is too long is cut as late as it can be: with one character more it would not fit.
/// One that fits stays whole.
pub proof fn law_cut_messages_waste_nothing(message: Seq<char>, max_bytes: int)
    requires
        max_bytes >= 3,
    ensures
        encode_utf8(message).len() <= max_bytes ==> truncated_utf8(message, max_bytes) == message,
        encode_utf8(message).len() > max_bytes ==> {
            let kept = truncated_utf8(message, max_bytes).len() - 1;
            &&& 0 <= kept < message.len()
            &&& truncated_utf8(message, max_bytes) == message.take(kept).push('…')
            &&& encode_utf8(message.take(kept + 1)).len() + 3 > max_bytes
        },
{
    lemma_width_is_encoded_length(message);
    if utf8_width(message) > max_bytes {
        assert(message.take(0) == Seq::<char>::empty());
        lemma_fitting(message, 0, max_bytes - 3);
        lemma_fitting_stops(message, 0, max_bytes - 3);
        let kept = fitting(message, 0, max_bytes - 3);
        if kept == message.len() {
            assert(message.take(kept) =~= message);
        }
        lemma_width_is_encoded_length(message.take(kept + 1));
    }
}

proof fn lemma_fitting_stops(s: Seq<char>, n: int, bytes: int)
    requires
        0 <= n <= s.len(),
    ensures
        fitting(s, n, bytes) < s.len() ==> utf8_width(s.take(fitting(s, n, bytes) + 1)) > bytes,
    decreases s.len() - n,
{
    if n < s.len() && utf8_width(s.take(n + 1)) <= bytes {
        lemma_fitting_stops(s, n + 1, bytes);
    }
}

/// What a notification says. It begins with the status, which is that of an error exactly for an error.
/// Without details nothing follows, whatever was found; with them the words of the assistant follow
/// whole where they fit, or that there are none.
pub proof fn law_messages_say_the_status_first(
    kind: NotificationKind,
    quoting: bool,
    context: Option<Seq<char>>,
    words: Seq<char>,
)
    ensures
        message_text(kind, false, quoting, context) == if kind == NotificationKind::Error {
            "Copilot reported an error"@
        } else {
            "Ready for attention"@
        },
        ({
            let whole = message_text(kind, false, quoting, context) + "\n\n"@ + words;
            encode_utf8(whole).len() <= 3500 ==> message_text(kind, true, true, Some(words)) == whole
        }),
        context is None || !quoting ==> message_text(kind, true, quoting, context) == message_text(
            kind,
            false,
            quoting,
            context,
        ) + "\n\nNo assistant response was persisted for this work cycle."@,
{
    let whole = kind.status() + "\n\n"@ + words;
    law_cut_messages_waste_nothing(whole, 3500);
}

/// As much of the work cycle is read as may be: only what lies too far back is left out, and only what
/// the file has not got is missing. Nothing is read exactly where the cycle left nothing.
pub proof fn law_as_much_of_the_cycle_is_read_as_may_be(file_length: u64, start: u64, end: u64)
    ensures
        log_window(file_length, start, end) matches Some((from, to)) ==> {
            &&& from > start ==> to - from == 2_097_152
            &&& to < end ==> to == file_length
        },
        log_window(file_length, start, end) is None <==> start >= end || start >= file_length,
{
}

/// The last message of the assistant is quoted, whatever else came behind it.
pub proof fn law_the_last_message_is_quoted(log: Seq<Seq<char>>, at: int)
    requires
        0 <= at < log.len(),
        line_message(log[at]) is Some,
        forall|i: int| at < i < log.len() ==> line_message(#[trigger] log[i]) is None,
    ensures
        last_message(log) == line_message(log[at]),
    decreases log.len(),
{
    if at < log.len() - 1 {
        assert(line_message(log[log.len() - 1]) is None);
        assert forall|i: int| at < i < log.drop_last().len() implies line_message(
            #[trigger] log.drop_last()[i],
        ) is None by {
            assert(line_message(log[i]) is None);
        }
        law_the_last_message_is_quoted(log.drop_last(), at);
    }
}

/// Only what the assistant said is quoted, and of that only what is more than whitespace.
pub proof fn law_only_the_assistant_is_quoted(kind: Option<Seq<char>>, content: Option<Seq<char>>)
    ensures
        event_message(kind, content) matches Some(message) ==> kind == Some("assistant.message"@)
            && content is Some && message == quoted(content->0) && message.len() > 0,
        event_message(kind, content) is None ==> kind != Some("assistant.message"@) || content is None
            || quoted(content->0).len() == 0,
{
}

/// The first line is left out exactly where it is only the end of one.
pub proof fn law_broken_lines_are_left_out(text: Seq<char>)
    requires
        lines(text).len() > 0,
    ensures
        log_lines(text, false) == lines(text),
        seq![lines(text)[0]] + log_lines(text, true) == lines(text),
{
    assert(seq![lines(text)[0]] + log_lines(text, true) =~= lines(text));
}

/// A title that is clean is shown whole, up to its first characters.
pub proof fn law_clean_titles_are_shown_whole(title: Seq<char>)
    requires
        title.len() > 0,
        !white(title[0]),
        !white(title.last()),
        forall|i: int| 0 <= i < title.len() ==> !control(#[trigger] title[i]),
    ensures
        title.len() <= 120 ==> title_text(title) == "CST · "@ + title,
        title.len() >= 120 ==> title_text(title) == title_text(title.take(120)),
{
    let clean = title.map_values(|c: char| if control(c) { ' ' } else { c });
    assert(clean =~= title);
    let none = Seq::<char>::empty();
    crate::strings::law_trimming_takes_off_the_ends(none, title, none);
    assert(none + title + none =~= title);
    assert(title.len() == 120 ==> title.take(120) =~= title);
    assert(title.len() >= 120 ==> title.take(120).take(120) =~= title.take(120));
}

/// A failure is tried again exactly where the server may do better the next time.
pub proof fn law_only_passing_failures_are_tried_again(failure: PublishFailure)
    ensures
        failure.transient() <==> failure == PublishFailure::Unreachable || (
        failure matches PublishFailure::Status(code) && code >= 500),
        failure matches PublishFailure::Status(code) ==> failure.text() == (if failure.transient() {
            "ntfy server returned an error"@
        } else {
            "ntfy rejected the notification"@
        }),
{
}

/// What is wrong with a configuration is told one thing at a time: the server first, then the topic,
/// then the token; and nothing is wrong exactly where all three are right.
pub proof fn law_configurations_are_checked_in_order(check: ConfigCheck)
    ensures
        config_failure(check) is None <==> check.server && check.topic && check.token,
        config_failure(check) == Some(PublishFailure::InvalidServer) <==> !check.server,
        config_failure(check) == Some(PublishFailure::InvalidTopic) <==> check.server && !check.topic,
        config_failure(check) == Some(PublishFailure::InvalidToken) <==> check.server && check.topic
            && !check.token,
{
}

/// The words of the assistant are looked for only when it is ready, and only where the cycle wrote
/// something.
pub proof fn law_words_are_looked_for_when_ready(request: NotificationRequest)
    ensures
        quotes_cycle(request) <==> request.kind == NotificationKind::Ready && request.events_path is Some
            && (request.events_start matches Some(start) && (request.events_end matches Some(end)
            && start < end)),
{
}

} // verus!
