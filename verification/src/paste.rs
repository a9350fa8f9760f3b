//! Pastes that arrive as keystrokes.
//!
//! On Windows a paste reaches the program as a burst of plain key events, in which every line break
//! looks like the Enter key. Nobody types several keys at the same instant, so a run of text keys that
//! is queued already is taken for the paste it is.

use crate::input::{Event, KeyCode, KeyEventKind};
use vstd::prelude::*;

verus! {

/// The characters a burst must have to count as a paste.
pub const MIN_PASTE_CHARS: usize = 8;

/// How many milliseconds the rest of a burst has to follow its first character.
pub const BURST_START_GRACE: u64 = 5;

/// How many milliseconds more of a burst has to follow once one is under way.
pub const BURST_GRACE: u64 = 2;

/// The character that an event adds to a paste. Chords and keys that move about add none.
pub open spec fn pasted_char(event: Event) -> Option<char> {
    match event {
        Event::Key(key) => if key.kind != KeyEventKind::Press || key.modifiers.control
            || key.modifiers.alt || key.modifiers.super_key || key.modifiers.hyper {
            None
        } else {
            match key.code {
                KeyCode::Char(c) => Some(c),
                KeyCode::Enter => Some('\n'),
                KeyCode::Tab => Some('\t'),
                _ => None,
            }
        },
        _ => None,
    }
}

/// The characters that events add to a paste.
pub open spec fn pasted_text(run: Seq<Event>) -> Seq<char>
    decreases run.len(),
{
    if run.len() == 0 {
        Seq::empty()
    } else {
        let before = pasted_text(run.drop_last());
        match pasted_char(run.last()) {
            Some(c) => before.push(c),
            None => before,
        }
    }
}

/// Whether an event is a key that is held or came up.
pub open spec fn key_release(event: Event) -> bool {
    event matches Event::Key(key) && key.kind != KeyEventKind::Press
}

/// Whether an event belongs to a burst.
pub open spec fn continues_burst(event: Event) -> bool {
    pasted_char(event) is Some || key_release(event)
}

/// Whether events are a burst put together: one paste where it is long enough, else just the keys.
pub open spec fn folded(run: Seq<Event>, events: Seq<Event>) -> bool {
    if pasted_text(run).len() < MIN_PASTE_CHARS {
        events == run
    } else {
        events.len() == 1 && (events[0] matches Event::Paste(text) && text@ == pasted_text(run))
    }
}

/// The character that an event adds to a paste. A line break is a newline, which is what a child gets
/// from a paste elsewhere too.
pub fn paste_char(event: &Event) -> (c: Option<char>)
    ensures
        c == pasted_char(*event),
{
    match event {
        Event::Key(key) => {
            if key.kind != KeyEventKind::Press || key.modifiers.control || key.modifiers.alt
                || key.modifiers.super_key || key.modifiers.hyper {
                return None;
            }
            match key.code {
                KeyCode::Char(c) => Some(c),
                KeyCode::Enter => Some('\n'),
                KeyCode::Tab => Some('\t'),
                _ => None,
            }
        },
        _ => None,
    }
}

/// Whether an event is a key that is held or came up. Such events stand between the others of a
/// burst, and do not end it.
pub fn is_key_release(event: &Event) -> (r: bool)
    ensures
        r == key_release(*event),
{
    match event {
        Event::Key(key) => key.kind != KeyEventKind::Press,
        _ => false,
    }
}

fn text_of_run(run: &Vec<Event>) -> (text: Vec<char>)
    ensures
        text@ == pasted_text(run@),
{
    let mut text: Vec<char> = Vec::new();
    let mut i: usize = 0;
    while i < run.len()
        invariant
            i <= run@.len(),
            text@ == pasted_text(run@.take(i as int)),
        decreases run@.len() - i,
    {
        proof {
            assert(run@.take(i + 1).drop_last() == run@.take(i as int));
        }
        if let Some(c) = paste_char(&run[i]) {
            text.push(c);
        }
        i = i + 1;
    }
    assert(run@.take(i as int) == run@);
    text
}

/// How many characters events add to a paste.
pub fn text_len(run: &Vec<Event>) -> (count: usize)
    ensures
        count == pasted_text(run@).len(),
{
    text_of_run(run).len()
}

/// Puts a burst together.
pub fn fold(run: Vec<Event>) -> (events: Vec<Event>)
    ensures
        folded(run@, events@),
{
    let text = text_of_run(&run);
    if text.len() < MIN_PASTE_CHARS {
        return run;
    }
    let mut events: Vec<Event> = Vec::new();
    events.push(Event::Paste(crate::strings::text_of(&text)));
    events
}

/// A burst that is being gathered: the events in it, and the event that ended it, where one did.
pub struct Burst {
    pub run: Vec<Event>,
    pub trailing: Option<Event>,
}

impl Burst {
    /// Whether everything that was gathered belongs to a burst.
    pub open spec fn wf(self) -> bool {
        self.trailing matches Some(event) ==> !continues_burst(event)
    }

    /// A burst that begins with an event.
    pub fn begin(first: Event) -> (burst: Burst)
        ensures
            burst.run@ == seq![first],
            burst.trailing is None,
            burst.wf(),
    {
        let mut run: Vec<Event> = Vec::new();
        run.push(first);
        assert(run@ =~= seq![first]);
        Burst { run, trailing: None }
    }

    /// How many milliseconds to wait for the next event.
    pub fn grace(&self) -> (millis: u64)
        ensures
            millis == (if pasted_text(self.run@).len() >= 2 {
                BURST_GRACE
            } else {
                BURST_START_GRACE
            }),
    {
        if text_len(&self.run) >= 2 {
            BURST_GRACE
        } else {
            BURST_START_GRACE
        }
    }

    /// Takes the next event. One that does not belong to the burst ends it, and is kept. The flag says
    /// whether more may follow.
    pub fn take(&mut self, event: Event) -> (more: bool)
        requires
            old(self).trailing is None,
        ensures
            more == continues_burst(event),
            final(self).wf(),
            if more {
                final(self).run@ == old(self).run@.push(event) && final(self).trailing is None
            } else {
                final(self).run == old(self).run && final(self).trailing == Some(event)
            },
    {
        if paste_char(&event).is_some() || is_key_release(&event) {
            self.run.push(event);
            true
        } else {
            self.trailing = Some(event);
            false
        }
    }

    /// The events of the burst, put together, and behind them the one that ended it.
    pub fn collect_run(self) -> (events: Vec<Event>)
        ensures
            match self.trailing {
                Some(event) => events@.len() > 0 && events@.last() == event && folded(
                    self.run@,
                    events@.drop_last(),
                ),
                None => folded(self.run@, events@),
            },
    {
        let mut events = fold(self.run);
        if let Some(event) = self.trailing {
            let ghost before = events@;
            events.push(event);
            assert(events@.drop_last() == before);
        }
        events
    }
}

/// What is done with an event that was read: it is handed on as it is, or begins a burst.
pub enum FirstEvent {
    Deliver(Event),
    Gather(Burst),
}

/// What is done with an event that was read. Only Windows takes pastes apart, and only text begins one.
pub fn read_events(first: Event, windows: bool) -> (r: FirstEvent)
    ensures
        if windows && pasted_char(first) is Some {
            r matches FirstEvent::Gather(burst) && burst.run@ == seq![first] && burst.trailing is None
        } else {
            r == FirstEvent::Deliver(first)
        },
{
    if !windows || paste_char(&first).is_none() {
        FirstEvent::Deliver(first)
    } else {
        FirstEvent::Gather(Burst::begin(first))
    }
}

/// A short run of keys stays what it is: an Enter that was typed is never taken for pasted text.
pub proof fn law_short_runs_stay_keys(run: Seq<Event>, events: Seq<Event>)
    requires
        run.len() < MIN_PASTE_CHARS,
        folded(run, events),
    ensures
        events == run,
{
    lemma_text_is_no_longer(run);
}

proof fn lemma_text_is_no_longer(run: Seq<Event>)
    ensures
        pasted_text(run).len() <= run.len(),
    decreases run.len(),
{
    if run.len() > 0 {
        lemma_text_is_no_longer(run.drop_last());
    }
}

/// Releases between the keys of a burst change nothing about its text.
pub proof fn law_releases_add_nothing(run: Seq<Event>, release: Event)
    requires
        key_release(release),
    ensures
        pasted_text(run.push(release)) == pasted_text(run),
{
    assert(run.push(release).drop_last() =~= run);
}

/// What was typed in one run is pasted as it was typed: its characters in their order, a break for each
/// enter and a tab for each tab.
pub proof fn law_pastes_hold_what_was_typed(run: Seq<Event>, text: Seq<char>)
    requires
        run.len() == text.len(),
        forall|i: int|
            0 <= i < run.len() ==> (#[trigger] run[i] matches Event::Key(key) && key.kind
                == KeyEventKind::Press && !key.modifiers.control && !key.modifiers.alt
                && !key.modifiers.super_key && !key.modifiers.hyper && (if text[i] == '\n' {
                key.code == KeyCode::Enter
            } else if text[i] == '\t' {
                key.code == KeyCode::Tab
            } else {
                key.code == KeyCode::Char(text[i])
            })),
    ensures
        pasted_text(run) == text,
    decreases run.len(),
{
    if run.len() > 0 {
        let before = run.drop_last();
        assert(run[run.len() - 1] == run.last());
        assert forall|i: int| 0 <= i < before.len() implies (#[trigger] before[i] matches Event::Key(
            key,
        ) && key.kind == KeyEventKind::Press && !key.modifiers.control && !key.modifiers.alt
            && !key.modifiers.super_key && !key.modifiers.hyper && (if text.drop_last()[i] == '\n' {
            key.code == KeyCode::Enter
        } else if text.drop_last()[i] == '\t' {
            key.code == KeyCode::Tab
        } else {
            key.code == KeyCode::Char(text.drop_last()[i])
        })) by {
            assert(before[i] == run[i]);
            assert(text.drop_last()[i] == text[i]);
        }
        law_pastes_hold_what_was_typed(before, text.drop_last());
        assert(text.drop_last().push(text.last()) =~= text);
    } else {
        assert(text =~= Seq::<char>::empty());
    }
}

/// A run becomes one paste exactly where it holds eight characters or more, and no key with a modifier
/// that means something is ever part of one.
pub proof fn law_long_runs_become_one_paste(
    run: Seq<Event>,
    events: Seq<Event>,
    key: crate::input::KeyEvent,
)
    requires
        folded(run, events),
    ensures
        pasted_text(run).len() >= 8 ==> events.len() == 1 && (events[0] matches Event::Paste(text)
            && text@ == pasted_text(run)),
        pasted_text(run).len() < 8 ==> events == run,
        key.modifiers.control || key.modifiers.alt ==> pasted_char(Event::Key(key)) is None,
{
}

} // verus!
