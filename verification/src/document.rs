//! Document state: the text buffer with its cursor, the associated path
//! (`None` meaning "unsaved, untitled"), the dirty flag, and the last error.
//! The dirty flag is false immediately after a successful load or save and
//! becomes true on any content-mutating edit action.

use vstd::prelude::*;
use crate::errors::Error;

verus! {

/// An editing action on the buffer. Insertions and removals are edits;
/// cursor movements are not and never change the content.
#[derive(Debug, Clone, PartialEq, Eq)]
pub enum EditAction {
    /// Insert text at the cursor; the cursor ends just after it.
    Insert(String),
    /// Remove the character before the cursor, if there is one.
    Backspace,
    /// Remove the character at the cursor, if there is one.
    Delete,
    /// Move the cursor one character left, stopping at the start.
    MoveLeft,
    /// Move the cursor one character right, stopping at the end.
    MoveRight,
}

/// Whether an action can change the buffer content. Exactly the actions for
/// which this is false leave the content untouched.
pub open spec fn spec_is_edit(a: EditAction) -> bool {
    match a {
        EditAction::Insert(_) => true,
        EditAction::Backspace => true,
        EditAction::Delete => true,
        EditAction::MoveLeft => false,
        EditAction::MoveRight => false,
    }
}

impl EditAction {
    /// Whether this action counts as an edit (it can change the content).
    pub fn is_edit(&self) -> (r: bool)
        ensures
            r == spec_is_edit(*self),
    {
        match self {
            EditAction::Insert(_) => true,
            EditAction::Backspace => true,
            EditAction::Delete => true,
            EditAction::MoveLeft => false,
            EditAction::MoveRight => false,
        }
    }
}

/// The mathematical model of a document.
#[verifier::ext_equal]
pub struct DocView {
    pub content: Seq<char>,
    pub cursor: nat,
    pub path: Option<Seq<char>>,
    pub dirty: bool,
    pub last_error: Option<Error>,
}

impl DocView {
    /// The cursor always sits within the buffer.
    pub open spec fn wf(self) -> bool {
        self.cursor <= self.content.len()
    }
}

/// What an action does to the buffer and the cursor.
pub open spec fn spec_buffer_edit(content: Seq<char>, cursor: nat, a: EditAction) -> (Seq<char>, nat) {
    match a {
        EditAction::Insert(text) => (
            content.take(cursor as int) + text@ + content.skip(cursor as int),
            cursor + text@.len(),
        ),
        EditAction::Backspace => if cursor > 0 {
            (content.take(cursor - 1) + content.skip(cursor as int), (cursor - 1) as nat)
        } else {
            (content, cursor)
        },
        EditAction::Delete => if cursor < content.len() {
            (content.take(cursor as int) + content.skip(cursor as int + 1), cursor)
        } else {
            (content, cursor)
        },
        EditAction::MoveLeft => (content, if cursor > 0 { (cursor - 1) as nat } else { cursor }),
        EditAction::MoveRight => (
            content,
            if cursor < content.len() { (cursor + 1) as nat } else { cursor },
        ),
    }
}

/// What an edit action does to a document: the buffer and cursor change per
/// the action, the document becomes dirty if the action is an edit, and the
/// last error is cleared.
pub open spec fn spec_apply_edit(d: DocView, a: EditAction) -> DocView {
    DocView {
        content: spec_buffer_edit(d.content, d.cursor, a).0,
        cursor: spec_buffer_edit(d.content, d.cursor, a).1,
        path: d.path,
        dirty: d.dirty || spec_is_edit(a),
        last_error: None,
    }
}

/// The document right after a successful load: exactly the given content,
/// cursor at the start, the given path, clean, and no error.
pub open spec fn spec_loaded(content: Seq<char>, path: Seq<char>) -> DocView {
    DocView { content, cursor: 0, path: Some(path), dirty: false, last_error: None }
}

/// The blank unsaved document: empty buffer, no path, and — as a policy
/// choice — already dirty, so that a fresh document forces an explicit save
/// prompt rather than counting as clean.
pub open spec fn spec_reset_new() -> DocView {
    DocView { content: Seq::empty(), cursor: 0, path: None, dirty: true, last_error: None }
}

/// The document after a successful save: the path recorded, clean, no error,
/// the buffer untouched.
pub open spec fn spec_mark_saved(d: DocView, path: Seq<char>) -> DocView {
    DocView { path: Some(path), dirty: false, last_error: None, ..d }
}

/// The document after a failed operation: only the last error changes.
pub open spec fn spec_record_error(d: DocView, e: Error) -> DocView {
    DocView { last_error: Some(e), ..d }
}

/// The document state owned by the controller; the presentation layer only
/// reads a snapshot of it.
#[derive(Debug)]
pub struct Document {
    pub content: String,
    /// Cursor position, as a character index into `content`.
    pub cursor: usize,
    pub path: Option<String>,
    pub dirty: bool,
    pub last_error: Option<Error>,
}

impl View for Document {
    type V = DocView;

    open spec fn view(&self) -> DocView {
        DocView {
            content: self.content@,
            cursor: self.cursor as nat,
            path: match self.path {
                Some(p) => Some(p@),
                None => None,
            },
            dirty: self.dirty,
            last_error: self.last_error,
        }
    }
}

impl Document {
    /// A blank unsaved document; see `spec_reset_new` for the policy on the
    /// dirty flag.
    pub fn new() -> (r: Document)
        ensures
            r@ == spec_reset_new(),
            r@.wf(),
    {
        let d = Document {
            content: String::new(),
            cursor: 0,
            path: None,
            dirty: true,
            last_error: None,
        };
        proof {
            assert(d@ =~= spec_reset_new());
        }
        d
    }

    /// Applies one edit action: the buffer and cursor change per the action,
    /// any edit marks the document dirty, and the last error is cleared.
    /// An action that changes the content always leaves the document dirty,
    /// whatever its prior state.
    pub fn apply_edit(&mut self, a: EditAction)
        requires
            old(self)@.wf(),
        ensures
            final(self)@ == spec_apply_edit(old(self)@, a),
            final(self)@.wf(),
            final(self)@.content != old(self)@.content ==> final(self)@.dirty,
    {
        let ghost a0 = a;
        self.dirty = self.dirty || a.is_edit();
        self.last_error = None;
        match a {
            EditAction::Insert(text) => {
                let n = self.content.as_str().unicode_len();
                let mut newc = self.content.as_str().substring_char(0, self.cursor).to_owned();
                newc.append(text.as_str());
                newc.append(self.content.as_str().substring_char(self.cursor, n));
                let m = newc.as_str().unicode_len();
                let rest = n - self.cursor;
                self.cursor = m - rest;
                self.content = newc;
            },
            EditAction::Backspace => {
                if self.cursor > 0 {
                    let n = self.content.as_str().unicode_len();
                    let mut newc = self.content.as_str().substring_char(0, self.cursor - 1).to_owned();
                    newc.append(self.content.as_str().substring_char(self.cursor, n));
                    self.content = newc;
                    self.cursor = self.cursor - 1;
                }
            },
            EditAction::Delete => {
                let n = self.content.as_str().unicode_len();
                if self.cursor < n {
                    let mut newc = self.content.as_str().substring_char(0, self.cursor).to_owned();
                    newc.append(self.content.as_str().substring_char(self.cursor + 1, n));
                    self.content = newc;
                }
            },
            EditAction::MoveLeft => {
                if self.cursor > 0 {
                    self.cursor = self.cursor - 1;
                }
            },
            EditAction::MoveRight => {
                let n = self.content.as_str().unicode_len();
                if self.cursor < n {
                    self.cursor = self.cursor + 1;
                }
            },
        }
        proof {
            assert(self@ =~= spec_apply_edit(old(self)@, a0));
        }
    }

    /// Replaces the buffer wholesale with freshly read content: the document
    /// holds exactly the given content, at the given path, clean, with no
    /// error and the cursor at the start.
    pub fn load(&mut self, content: String, path: String)
        ensures
            final(self)@ == spec_loaded(content@, path@),
            final(self)@.wf(),
    {
        let ghost c0 = content@;
        let ghost p0 = path@;
        self.content = content;
        self.cursor = 0;
        self.path = Some(path);
        self.dirty = false;
        self.last_error = None;
        proof {
            assert(self@ =~= spec_loaded(c0, p0));
        }
    }

    /// Clears the document to the blank unsaved state; see `spec_reset_new`.
    pub fn reset_new(&mut self)
        ensures
            final(self)@ == spec_reset_new(),
            final(self)@.wf(),
    {
        self.content = String::new();
        self.cursor = 0;
        self.path = None;
        self.dirty = true;
        self.last_error = None;
        proof {
            assert(self@ =~= spec_reset_new());
        }
    }

    /// Records a successful save to the given path: the path is remembered,
    /// the document is clean again, and the last error is cleared. The buffer
    /// and cursor are untouched.
    pub fn mark_saved(&mut self, path: String)
        requires
            old(self)@.wf(),
        ensures
            final(self)@ == spec_mark_saved(old(self)@, path@),
            final(self)@.wf(),
    {
        self.path = Some(path);
        self.dirty = false;
        self.last_error = None;
        proof {
            assert(self@ =~= spec_mark_saved(old(self)@, self@.path->0));
        }
    }

    /// Stores a failed operation's error; the buffer, cursor, path and dirty
    /// flag are untouched.
    pub fn record_error(&mut self, e: Error)
        requires
            old(self)@.wf(),
        ensures
            final(self)@ == spec_record_error(old(self)@, e),
            final(self)@.wf(),
    {
        self.last_error = Some(e);
        proof {
            assert(self@ =~= spec_record_error(old(self)@, e));
        }
    }
}

} // verus!
