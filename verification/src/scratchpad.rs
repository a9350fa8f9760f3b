//! Notes kept per session: where they are stored, when they are saved, and which keys close them.

use crate::editor::{law_a_cursor_is_restored, place_of, position_at, CursorPosition, TextEditor};
use crate::hashing::{hex, hex_text, sha256, sha256_digest};
use crate::input::{Event, KeyCode, KeyEventKind};
use crate::paths::{data_directory, data_place, join_path, joined};
use crate::session::worktree::Failure;
use vstd::prelude::*;
use vstd::utf8::encode_utf8;

verus! {

/// The milliseconds without an edit after which notes are saved by themselves.
pub const AUTOSAVE_DELAY: u64 = 500;

/// Whether the notes stay open after an event.
#[derive(Clone, Copy, Debug, PartialEq, Eq, Structural)]
pub enum InputOutcome {
    Continue,
    Close,
}

/// What an event over the notes asks for.
#[derive(Clone, Copy, Debug, PartialEq, Eq, Structural)]
pub enum ScratchpadRequest {
    Nothing,
    /// Save, and close once that worked.
    SaveAndClose,
    /// Save, and say so.
    Save,
    /// Hand the event to the text editor.
    Edit,
}

/// The notes of one session, beside the text editor that holds them. Times are milliseconds of one
/// clock.
pub struct Scratchpad {
    pub session_id: String,
    pub dirty: bool,
    pub last_edit: Option<u64>,
    pub status_message: Option<String>,
}

/// How removing a file went.
#[derive(Debug, PartialEq, Eq)]
pub enum FileRemoval {
    Removed,
    Missing,
    Failed(String),
}

/// How reading a file went.
#[derive(Debug, PartialEq, Eq)]
pub enum FileRead {
    Text(String),
    Missing,
    Failed(String),
}

/// What saving notes stores: their text, where the file has to be written, and where the cursor is.
pub struct NotesSave {
    pub text: Option<String>,
    pub cursor: CursorPosition,
}

/// The name of the file that holds the notes of a session: the digest of the session id, so that no
/// id can name a place outside the notes directory.
pub open spec fn file_name(session_id: Seq<char>) -> Seq<char> {
    named_file(sha256(encode_utf8(session_id)))
}

/// The name of the file for a digest.
pub open spec fn named_file(digest: Seq<u8>) -> Seq<char> {
    hex(digest) + ".txt"@
}

/// What an event asks for. `supported` says whether the editor knows the key.
pub open spec fn scratchpad_request(event: Event, supported: bool) -> ScratchpadRequest {
    match event {
        Event::Key(key) => if key.kind != KeyEventKind::Press {
            ScratchpadRequest::Nothing
        } else if key.code == KeyCode::Esc {
            ScratchpadRequest::SaveAndClose
        } else if key.code == KeyCode::Char('s') && key.modifiers.control {
            ScratchpadRequest::Save
        } else if !supported {
            ScratchpadRequest::Nothing
        } else {
            ScratchpadRequest::Edit
        },
        _ => ScratchpadRequest::Edit,
    }
}

/// The name of the file that holds the notes of a session.
pub fn scratchpad_file_name(session_id: &str) -> (name: String)
    ensures
        name@ == file_name(session_id@),
{
    let bytes = session_id.as_bytes_vec();
    digest_file_name(&sha256_digest(&bytes))
}

/// The directory that holds all notes.
pub fn scratchpad_root(data: &Option<String>, home: &Option<String>, windows: bool) -> (path: String)
    ensures
        path@ == joined(
            data_place(*data, *home, "copilot-session-tui"@, windows),
            "scratchpads"@,
            windows,
        ),
{
    let program = data_directory(data, home, "copilot-session-tui", windows);
    join_path(program.as_str(), "scratchpads", windows)
}

/// The file that holds the notes of a session.
pub fn scratchpad_path_in(root: &str, session_id: &str, windows: bool) -> (path: String)
    ensures
        path@ == joined(root@, file_name(session_id@), windows),
{
    join_path(root, scratchpad_file_name(session_id).as_str(), windows)
}

/// The name of the notes file for a digest.
pub fn digest_file_name(digest: &Vec<u8>) -> (name: String)
    ensures
        name@ == named_file(digest@),
{
    let mut name = hex_text(digest);
    name.append(".txt");
    name
}

impl Scratchpad {
    /// The notes of a session as they were stored.
    pub fn open(session_id: &str) -> (scratchpad: Self)
        ensures
            scratchpad.session_id@ == session_id@,
            !scratchpad.dirty,
            scratchpad.last_edit is None,
            scratchpad.status_message is None,
    {
        Scratchpad {
            session_id: session_id.to_owned(),
            dirty: false,
            last_edit: None,
            status_message: None,
        }
    }

    /// The notes of a session that was made up, once its text has been written to a place of its own.
    pub fn synthetic(session_id: &str, written: Result<(), String>) -> (r: Result<Self, String>)
        ensures
            match written {
                Ok(_) => r matches Ok(scratchpad) && scratchpad.session_id@ == session_id@
                    && !scratchpad.dirty && scratchpad.last_edit is None
                    && scratchpad.status_message is None,
                Err(failure) => r == Err::<Scratchpad, String>(failure),
            },
    {
        match written {
            Ok(_) => Ok(Scratchpad::open(session_id)),
            Err(failure) => Err(failure),
        }
    }

    /// What an event asks for. An event for the editor clears the last message.
    pub fn handle_event(&mut self, event: &Event, supported: bool) -> (request: ScratchpadRequest)
        ensures
            request == scratchpad_request(*event, supported),
            *final(self) == (if request == ScratchpadRequest::Edit {
                Scratchpad { status_message: None, ..*old(self) }
            } else {
                *old(self)
            }),
    {
        if let Event::Key(key) = event {
            if key.kind != KeyEventKind::Press {
                return ScratchpadRequest::Nothing;
            }
            if key.code == KeyCode::Esc {
                return ScratchpadRequest::SaveAndClose;
            }
            if key.code == KeyCode::Char('s') && key.modifiers.control {
                return ScratchpadRequest::Save;
            }
            if !supported {
                return ScratchpadRequest::Nothing;
            }
        }
        self.status_message = None;
        ScratchpadRequest::Edit
    }

    /// Takes in what the editor did with an event: whether the text changed, and what the clipboard
    /// had to complain about.
    pub fn edited(&mut self, changed: bool, clipboard_error: Option<String>, now: u64)
        ensures
            *final(self) == (Scratchpad {
                dirty: old(self).dirty || changed,
                last_edit: if changed {
                    Some(now)
                } else {
                    old(self).last_edit
                },
                status_message: if clipboard_error is Some {
                    clipboard_error
                } else {
                    old(self).status_message
                },
                ..*old(self)
            }),
    {
        if changed {
            self.dirty = true;
            self.last_edit = Some(now);
        }
        if clipboard_error.is_some() {
            self.status_message = clipboard_error;
        }
    }

    /// Takes in how a requested save went, and says whether the notes stay open. A failed save
    /// keeps them open.
    pub fn saved(&mut self, request: ScratchpadRequest, stored: &Result<(), String>) -> (outcome:
        InputOutcome)
        ensures
            outcome == (if request == ScratchpadRequest::SaveAndClose && stored is Ok {
                InputOutcome::Close
            } else {
                InputOutcome::Continue
            }),
            match *stored {
                Ok(_) if request == ScratchpadRequest::Save => {
                    &&& final(self).status_message is Some
                    &&& final(self).status_message->0@ == "Scratchpad saved"@
                },
                Ok(_) => final(self).status_message == old(self).status_message,
                Err(error) => {
                    &&& final(self).status_message is Some
                    &&& final(self).status_message->0@ == "Scratchpad save failed: "@ + error@
                },
            },
            *final(self) == (Scratchpad {
                status_message: final(self).status_message,
                ..*old(self)
            }),
    {
        match stored {
            Ok(_) => {
                if request == ScratchpadRequest::SaveAndClose {
                    return InputOutcome::Close;
                }
                if request == ScratchpadRequest::Save {
                    self.status_message = Some("Scratchpad saved".to_owned());
                }
                InputOutcome::Continue
            },
            Err(error) => {
                let mut message = "Scratchpad save failed: ".to_owned();
                message.append(error.as_str());
                self.status_message = Some(message);
                InputOutcome::Continue
            },
        }
    }

    /// Whether the notes are to be saved by themselves: changed, and left alone for long enough. A
    /// clock that went back counts as no time at all.
    pub open spec fn due(&self, now: u64) -> bool {
        self.dirty && (self.last_edit matches Some(edit) && now >= edit + AUTOSAVE_DELAY)
    }

    /// Whether the notes are to be saved by themselves now.
    pub fn autosave_if_due(&self, now: u64) -> (due: bool)
        ensures
            due == self.due(now),
    {
        match self.last_edit {
            Some(edit) => self.dirty && now >= edit && now - edit >= AUTOSAVE_DELAY,
            None => false,
        }
    }

    /// An autosave failed: it is tried again after another delay.
    pub fn autosave_failed(&mut self, now: u64)
        ensures
            *final(self) == (Scratchpad { last_edit: Some(now), ..*old(self) }),
    {
        self.last_edit = Some(now);
    }

    /// Whether changes wait to be saved.
    pub fn autosave_pending(&self) -> (pending: bool)
        ensures
            pending == self.dirty,
    {
        self.dirty
    }

    /// What saving the notes in an editor stores. The file has to be written where there are changes,
    /// or no file yet.
    pub fn save(&self, editor: &TextEditor, file_exists: bool) -> (save: NotesSave)
        requires
            editor.wf(),
        ensures
            match save.text {
                Some(text) => (self.dirty || !file_exists) && text@ == editor.chars@,
                None => !self.dirty && file_exists,
            },
            (save.cursor.row as int, save.cursor.col as int) == place_of(
                editor.chars@,
                editor.cursor as int,
            ),
    {
        let text = if self.dirty || !file_exists {
            Some(editor.text())
        } else {
            None
        };
        NotesSave { text, cursor: editor.cursor_position() }
    }

    /// The file was written: nothing waits to be saved any more.
    pub fn written(&mut self)
        ensures
            *final(self) == (Scratchpad { dirty: false, last_edit: None, ..*old(self) }),
    {
        self.dirty = false;
        self.last_edit = None;
    }

    /// Whether there are changes that were not saved.
    pub fn is_dirty(&self) -> (dirty: bool)
        ensures
            dirty == self.dirty,
    {
        self.dirty
    }
}

/// A message about a file before what the system said.
fn file_failure(message: &str, path: &str, error: String) -> (failure: Failure)
    ensures
        failure@ == seq![message@ + path@, error@],
{
    let mut text = message.to_owned();
    text.append(path);
    let failure = Failure::of(error).context(text);
    assert(failure@ =~= seq![message@ + path@, error@]);
    failure
}

/// The text that notes have, by what reading their file gave: none where there is no file.
pub open spec fn notes_read(path: Seq<char>, read: FileRead) -> Result<Seq<char>, Seq<Seq<char>>> {
    match read {
        FileRead::Text(text) => Ok(text@),
        FileRead::Missing => Ok(Seq::empty()),
        FileRead::Failed(error) => Err(seq!["Failed to read scratchpad: "@ + path, error@]),
    }
}

/// The editor for notes, by what reading their file gave and where the cursor was when they were last
/// saved. `path` is the file for messages.
pub fn open_editor(path: &str, read: FileRead, saved: CursorPosition) -> (r: Result<
    TextEditor,
    Failure,
>)
    ensures
        match r {
            Ok(editor) => {
                &&& notes_read(path@, read) == Ok::<Seq<char>, Seq<Seq<char>>>(editor.chars@)
                &&& editor.wf()
                &&& !editor.one_line
                &&& editor.cursor == position_at(editor.chars@, saved)
            },
            Err(failure) => notes_read(path@, read) == Err::<Seq<char>, Seq<Seq<char>>>(failure@),
        },
{
    let text = match read {
        FileRead::Text(text) => text,
        FileRead::Missing => String::new(),
        FileRead::Failed(error) => {
            return Err(file_failure("Failed to read scratchpad: ", path, error));
        },
    };
    let mut editor = TextEditor::new(text.as_str());
    editor.set_cursor(saved);
    Ok(editor)
}

/// What deleting the notes of a session came to, by how removing their file went: whether there were
/// any, or why they could not be deleted.
pub open spec fn notes_deleted(path: Seq<char>, removal: FileRemoval) -> Result<
    bool,
    Seq<Seq<char>>,
> {
    match removal {
        FileRemoval::Removed => Ok(true),
        FileRemoval::Missing => Ok(false),
        FileRemoval::Failed(error) => Err(seq!["Failed to delete scratchpad: "@ + path, error@]),
    }
}

/// What deleting the notes of a session came to. `path` is the file for messages.
pub fn delete(path: &str, removal: FileRemoval) -> (r: Result<bool, Failure>)
    ensures
        match r {
            Ok(deleted) => notes_deleted(path@, removal) == Ok::<bool, Seq<Seq<char>>>(deleted),
            Err(failure) => notes_deleted(path@, removal) == Err::<bool, Seq<Seq<char>>>(failure@),
        },
{
    match removal {
        FileRemoval::Removed => Ok(true),
        FileRemoval::Missing => Ok(false),
        FileRemoval::Failed(error) => Err(
            file_failure("Failed to delete scratchpad: ", path, error),
        ),
    }
}

/// The notes of a session as they are stored: the text of their file, if there is one, and where the
/// cursor was.
pub struct StoredNotes {
    pub text: Option<Seq<char>>,
    pub cursor: CursorPosition,
}

impl StoredNotes {
    /// The text that opening the notes shows.
    pub open spec fn shown(self) -> Seq<char> {
        match self.text {
            Some(text) => text,
            None => Seq::empty(),
        }
    }

    /// What reading the file gives, where the file can be read.
    pub open spec fn gives(self, read: FileRead) -> bool {
        match self.text {
            Some(text) => read matches FileRead::Text(found) && found@ == text,
            None => read is Missing,
        }
    }

    /// What removing the file comes to, where it can be removed.
    pub open spec fn goes(self, removal: FileRemoval) -> bool {
        match self.text {
            Some(_) => removal is Removed,
            None => removal is Missing,
        }
    }

    /// The stored notes after a save that worked.
    pub open spec fn after(self, save: NotesSave) -> StoredNotes {
        StoredNotes {
            text: match save.text {
                Some(text) => Some(text@),
                None => self.text,
            },
            cursor: save.cursor,
        }
    }
}

/// Saved notes come back: once notes were saved, opening them shows the text that the editor held and
/// puts the cursor where it was. Notes without changes are those that are stored.
pub proof fn law_saved_notes_come_back(
    notes: Scratchpad,
    editor: TextEditor,
    stored: StoredNotes,
    save: NotesSave,
    path: Seq<char>,
    read: FileRead,
)
    requires
        editor.wf(),
        !notes.dirty ==> editor.chars@ == stored.shown(),
        match save.text {
            Some(text) => (notes.dirty || stored.text is None) && text@ == editor.chars@,
            None => !notes.dirty && stored.text is Some,
        },
        (save.cursor.row as int, save.cursor.col as int) == place_of(
            editor.chars@,
            editor.cursor as int,
        ),
        stored.after(save).gives(read),
    ensures
        notes_read(path, read) == Ok::<Seq<char>, Seq<Seq<char>>>(editor.chars@),
        position_at(editor.chars@, stored.after(save).cursor) == editor.cursor,
{
    law_a_cursor_is_restored(editor.chars@, editor.cursor as int, save.cursor);
}

/// Deleting notes says whether there were any; deleting them again says that there were none.
pub proof fn law_notes_are_deleted_once(
    stored: StoredNotes,
    path: Seq<char>,
    first: FileRemoval,
    second: FileRemoval,
)
    requires
        stored.goes(first),
        (StoredNotes { text: None, ..stored }).goes(second),
    ensures
        notes_deleted(path, first) == Ok::<bool, Seq<Seq<char>>>(stored.text is Some),
        notes_deleted(path, second) == Ok::<bool, Seq<Seq<char>>>(false),
{
}

/// Notes that were just written are not due to be saved, and an edit makes them due exactly after
/// the delay.
pub proof fn law_autosave_waits_for_the_delay(before: Scratchpad, edit: u64, now: u64)
    ensures
        ({
            let saved = Scratchpad { dirty: false, last_edit: None, ..before };
            let edited = Scratchpad { dirty: true, last_edit: Some(edit), ..saved };
            &&& !saved.due(now)
            &&& edited.due(now) <==> now >= edit + AUTOSAVE_DELAY
        }),
{
}

/// Two sessions share a notes file only where their ids have one digest.
pub proof fn law_notes_are_kept_apart(a: Seq<char>, b: Seq<char>)
    requires
        file_name(a) == file_name(b),
    ensures
        sha256(encode_utf8(a)) == sha256(encode_utf8(b)),
{
    let x = sha256(encode_utf8(a));
    let y = sha256(encode_utf8(b));
    assert(file_name(a).len() == hex(x).len() + ".txt"@.len());
    assert(file_name(b).len() == hex(y).len() + ".txt"@.len());
    assert(file_name(a).take(hex(x).len() as int) == hex(x));
    assert(file_name(b).take(hex(y).len() as int) == hex(y));
    crate::hashing::law_hex_is_injective(x, y);
}

/// The notes of a session lie in a text file that is named by the digest of its id.
pub proof fn law_notes_are_named_by_the_digest(session_id: Seq<char>)
    ensures
        ({
            let name = file_name(session_id);
            let n = name.len() - 4;
            &&& n >= 0
            &&& name.take(n) == hex(sha256(encode_utf8(session_id)))
            &&& name.skip(n) == ".txt"@
        }),
{
    reveal_strlit(".txt");
    let digits = hex(sha256(encode_utf8(session_id)));
    let name = file_name(session_id);
    assert(name.take(name.len() - 4) =~= digits);
    assert(name.skip(name.len() - 4) =~= ".txt"@);
}

/// What the keys ask of the notes: escape saves and closes, `s` with the control key saves, and what
/// else the editor takes is typed. A key that goes up asks for nothing.
pub proof fn law_keys_in_the_notes(key: crate::input::KeyEvent, supported: bool)
    ensures
        ({
            let request = scratchpad_request(Event::Key(key), supported);
            let pressed = key.kind == KeyEventKind::Press;
            let saving = key.modifiers.control && key.code == KeyCode::Char('s');
            &&& request == ScratchpadRequest::SaveAndClose <==> pressed && key.code == KeyCode::Esc
            &&& request == ScratchpadRequest::Save <==> pressed && saving
            &&& request == ScratchpadRequest::Edit <==> pressed && supported && !saving && key.code
                != KeyCode::Esc
        }),
{
}

/// Notes are stored by themselves half a second after they were last changed, and not before.
pub proof fn law_changed_notes_are_stored_in_time(notes: Scratchpad, edit: u64, now: u64)
    requires
        notes.last_edit == Some(edit),
    ensures
        notes.dirty ==> (notes.due(now) <==> now - edit >= 500),
        !notes.dirty ==> !notes.due(now),
{
}

/// Notes that were never stored are empty, and those that cannot be read are not taken for empty.
pub proof fn law_unreadable_notes_are_not_empty_ones(path: Seq<char>, read: FileRead)
    ensures
        notes_read(path, read) is Err <==> read is Failed,
        read is Missing ==> notes_read(path, read) == Ok::<Seq<char>, Seq<Seq<char>>>(Seq::empty()),
        read matches FileRead::Text(text) ==> notes_read(path, read) == Ok::<
            Seq<char>,
            Seq<Seq<char>>,
        >(text@),
{
}

} // verus!
