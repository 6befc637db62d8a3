//! The application controller: a message-driven state machine over the
//! (document, file tree) pair. Each incoming message — a user action or the
//! result of an earlier asynchronous operation — mutates the state and
//! yields zero or one follow-up command for the surrounding shell to run.
//! Results are applied in delivery order and a result aimed at state that
//! has since been replaced is dropped silently (the no-op-on-miss policy of
//! the tree module).

use vstd::prelude::*;
use crate::document::Document;
use crate::document::DocView;
use crate::document::EditAction;
use crate::document::spec_apply_edit;
use crate::document::spec_loaded;
use crate::document::spec_mark_saved;
use crate::document::spec_record_error;
use crate::document::spec_reset_new;
use crate::errors::Error;
use crate::errors::kind_text;
use crate::tree::FileNode;
use crate::tree::NodeView;
use crate::tree::ToggleOutcome;
use crate::tree::clone_opt_string;
use crate::tree::lemma_nodes_view_one;
use crate::tree::nodes_view;
use crate::tree::replace_root;
use crate::tree::set_dir_children;
use crate::tree::spec_install_seq;
use crate::tree::spec_toggle_seq;
use crate::tree::toggle_nodes;

verus! {

/// The characters after the last `/` of a path; the whole path when it has
/// no `/` at all.
pub open spec fn after_last_slash(p: Seq<char>) -> Seq<char>
    decreases p.len(),
{
    if p.len() == 0 {
        p
    } else if p.last() == '/' {
        Seq::empty()
    } else {
        after_last_slash(p.drop_last()).push(p.last())
    }
}

/// The display name of a file path: what follows its last `/` separator, or
/// the fallback name when that is empty. Paths are plain strings to the
/// core; the shell is responsible for rendering them with `/` separators.
pub open spec fn spec_file_label(p: Seq<char>) -> Seq<char> {
    if after_last_slash(p).len() == 0 {
        "Default"@
    } else {
        after_last_slash(p)
    }
}

/// When nothing after position `j` is a slash and `p[j]` is one, the suffix
/// after the last slash is everything past `j`.
proof fn lemma_after_last_slash_cut(p: Seq<char>, j: int)
    requires
        0 <= j < p.len(),
        p[j] == '/',
        forall|k: int| j < k < p.len() ==> p[k] != '/',
    ensures
        after_last_slash(p) == p.skip(j + 1),
    decreases p.len(),
{
    if j == p.len() - 1 {
        assert(p.skip(j + 1) =~= Seq::<char>::empty());
    } else {
        lemma_after_last_slash_cut(p.drop_last(), j);
        assert(p.drop_last().skip(j + 1).push(p.last()) =~= p.skip(j + 1));
    }
}

/// When a path has no slash at all, the suffix after the last slash is the
/// whole path.
proof fn lemma_after_last_slash_none(p: Seq<char>)
    requires
        forall|k: int| 0 <= k < p.len() ==> p[k] != '/',
    ensures
        after_last_slash(p) == p,
    decreases p.len(),
{
    if p.len() > 0 {
        lemma_after_last_slash_none(p.drop_last());
        assert(p.drop_last().push(p.last()) =~= p);
    }
}

/// The display name of a file path; see `spec_file_label`.
pub fn file_label(path: &String) -> (r: String)
    ensures
        r@ == spec_file_label(path@),
{
    let s = path.as_str();
    let n = s.unicode_len();
    let mut cut: usize = 0;
    let mut k: usize = 0;
    while k < n
        invariant
            k <= n,
            cut <= k,
            n == s@.len(),
            cut > 0 ==> s@[cut - 1] == '/',
            cut == 0 ==> forall|j: int| 0 <= j < k ==> s@[j] != '/',
            forall|j: int| cut <= j < k ==> s@[j] != '/',
        decreases n - k,
    {
        if s.get_char(k) == '/' {
            cut = k + 1;
        }
        k += 1;
    }
    proof {
        if cut == 0 {
            lemma_after_last_slash_none(s@);
        } else {
            lemma_after_last_slash_cut(s@, cut - 1);
        }
    }
    if cut == n {
        "Default".to_owned()
    } else {
        s.substring_char(cut, n).to_owned()
    }
}

/// A message entering the controller: a user action, or the result of an
/// asynchronous operation dispatched earlier, delivered whenever it
/// completes.
#[derive(Debug)]
pub enum Message {
    /// The user performed an in-editor edit action.
    ActionPerformed(EditAction),
    /// The user asked to open a file through the picker.
    OpenFile,
    /// A picked file was read: its content and path, or the failure.
    OpenedFile(Result<(String, String), Error>),
    /// A file clicked in the tree was read: its content and path, or the failure.
    OpenedTreeFile(Result<(String, String), Error>),
    /// The user asked for a blank unsaved document.
    NewFile,
    /// The user asked to open a directory through the picker.
    OpenDirectory,
    /// A directory listing finished: the new root nodes, or the failure.
    OpenedDirectory(Result<Vec<FileNode>, Error>),
    /// The user clicked a directory row to expand or collapse it.
    OpenChildDirectory(String),
    /// A child-directory listing finished: the nodes and the directory's
    /// path, or the failure.
    OpenedChildDirectory(Result<(Vec<FileNode>, String), Error>),
    /// The user clicked a file row in the tree.
    OpenTreeFile(String),
    /// The user asked to save the buffer.
    SaveFile,
    /// A save finished: the path written, or the failure.
    SavedFile(Result<String, Error>),
}

/// The zero-or-one asynchronous command the controller hands back to the
/// shell. The shell performs it off the state-mutation loop and re-enters
/// the result as the corresponding `Message`.
#[derive(Debug)]
pub enum Command {
    /// Nothing to dispatch.
    Idle,
    /// Show the open-file picker, read the chosen file, and answer with
    /// `OpenedFile`.
    PickAndReadFile,
    /// Read the file at this path and answer with `OpenedTreeFile`.
    ReadFile(String),
    /// Show the directory picker, list the chosen directory top-level, and
    /// answer with `OpenedDirectory`.
    PickAndListDirectory,
    /// List the directory at this path and answer with `OpenedDirectory`.
    ListDirectory(String),
    /// List the directory at this path and answer with `OpenedChildDirectory`.
    ListChildDirectory(String),
    /// Write the text to the path, first asking the user for a path if it is
    /// `None`, and answer with `SavedFile`.
    Save(Option<String>, String),
}

/// The mathematical model of a message.
#[verifier::ext_equal]
pub enum MsgView {
    ActionPerformed(EditAction),
    OpenFile,
    OpenedFile(Result<(Seq<char>, Seq<char>), Error>),
    OpenedTreeFile(Result<(Seq<char>, Seq<char>), Error>),
    NewFile,
    OpenDirectory,
    OpenedDirectory(Result<Seq<NodeView>, Error>),
    OpenChildDirectory(Seq<char>),
    OpenedChildDirectory(Result<(Seq<NodeView>, Seq<char>), Error>),
    OpenTreeFile(Seq<char>),
    SaveFile,
    SavedFile(Result<Seq<char>, Error>),
}

/// The mathematical model of a command.
#[verifier::ext_equal]
pub enum CmdView {
    Idle,
    PickAndReadFile,
    ReadFile(Seq<char>),
    PickAndListDirectory,
    ListDirectory(Seq<char>),
    ListChildDirectory(Seq<char>),
    Save(Option<Seq<char>>, Seq<char>),
}

/// The model of a message.
pub open spec fn msg_view(m: Message) -> MsgView {
    match m {
        Message::ActionPerformed(a) => MsgView::ActionPerformed(a),
        Message::OpenFile => MsgView::OpenFile,
        Message::OpenedFile(r) => MsgView::OpenedFile(
            match r {
                Ok((c, p)) => Ok((c@, p@)),
                Err(e) => Err(e),
            },
        ),
        Message::OpenedTreeFile(r) => MsgView::OpenedTreeFile(
            match r {
                Ok((c, p)) => Ok((c@, p@)),
                Err(e) => Err(e),
            },
        ),
        Message::NewFile => MsgView::NewFile,
        Message::OpenDirectory => MsgView::OpenDirectory,
        Message::OpenedDirectory(r) => MsgView::OpenedDirectory(
            match r {
                Ok(nodes) => Ok(nodes_view(nodes@)),
                Err(e) => Err(e),
            },
        ),
        Message::OpenChildDirectory(p) => MsgView::OpenChildDirectory(p@),
        Message::OpenedChildDirectory(r) => MsgView::OpenedChildDirectory(
            match r {
                Ok((nodes, p)) => Ok((nodes_view(nodes@), p@)),
                Err(e) => Err(e),
            },
        ),
        Message::OpenTreeFile(p) => MsgView::OpenTreeFile(p@),
        Message::SaveFile => MsgView::SaveFile,
        Message::SavedFile(r) => MsgView::SavedFile(
            match r {
                Ok(p) => Ok(p@),
                Err(e) => Err(e),
            },
        ),
    }
}

/// The model of a command.
pub open spec fn cmd_view(c: Command) -> CmdView {
    match c {
        Command::Idle => CmdView::Idle,
        Command::PickAndReadFile => CmdView::PickAndReadFile,
        Command::ReadFile(p) => CmdView::ReadFile(p@),
        Command::PickAndListDirectory => CmdView::PickAndListDirectory,
        Command::ListDirectory(p) => CmdView::ListDirectory(p@),
        Command::ListChildDirectory(p) => CmdView::ListChildDirectory(p@),
        Command::Save(p, t) => CmdView::Save(
            match p {
                Some(q) => Some(q@),
                None => None,
            },
            t@,
        ),
    }
}

/// The mathematical model of the whole editor state.
#[verifier::ext_equal]
pub struct EditorView {
    pub doc: DocView,
    pub tree: Seq<NodeView>,
}

/// The placeholder tree shown while no file or directory is open: a single
/// synthetic "New File" node with no path.
pub open spec fn spec_placeholder_tree() -> Seq<NodeView> {
    seq![NodeView::File { name: "New File"@, path: None }]
}

/// The single-node tree shown after a file is opened through the picker.
pub open spec fn spec_file_tree(p: Seq<char>) -> Seq<NodeView> {
    seq![NodeView::File { name: spec_file_label(p), path: Some(p) }]
}

/// What one message does: the next state and the command to dispatch.
/// This is the controller's entire protocol, one arm per message.
pub open spec fn spec_update(s: EditorView, m: MsgView) -> (EditorView, CmdView) {
    match m {
        MsgView::ActionPerformed(a) => (
            EditorView { doc: spec_apply_edit(s.doc, a), tree: s.tree },
            CmdView::Idle,
        ),
        MsgView::OpenFile => (s, CmdView::PickAndReadFile),
        MsgView::OpenedFile(r) => match r {
            Ok((c, p)) => (EditorView { doc: spec_loaded(c, p), tree: spec_file_tree(p) }, CmdView::Idle),
            Err(e) => (EditorView { doc: spec_record_error(s.doc, e), tree: s.tree }, CmdView::Idle),
        },
        MsgView::OpenedTreeFile(r) => match r {
            Ok((c, p)) => (EditorView { doc: spec_loaded(c, p), tree: s.tree }, CmdView::Idle),
            Err(e) => (EditorView { doc: spec_record_error(s.doc, e), tree: s.tree }, CmdView::Idle),
        },
        MsgView::NewFile => (
            EditorView { doc: spec_reset_new(), tree: spec_placeholder_tree() },
            CmdView::Idle,
        ),
        MsgView::OpenDirectory => (s, CmdView::PickAndListDirectory),
        MsgView::OpenedDirectory(r) => match r {
            Ok(nodes) => (EditorView { doc: s.doc, tree: nodes }, CmdView::Idle),
            Err(e) => (EditorView { doc: spec_record_error(s.doc, e), tree: s.tree }, CmdView::Idle),
        },
        MsgView::OpenChildDirectory(p) => (
            EditorView { doc: s.doc, tree: spec_toggle_seq(s.tree, p).0 },
            if spec_toggle_seq(s.tree, p).1 == ToggleOutcome::NeedsFetch {
                CmdView::ListChildDirectory(p)
            } else {
                CmdView::Idle
            },
        ),
        MsgView::OpenedChildDirectory(r) => match r {
            Ok((nodes, p)) => (
                EditorView { doc: s.doc, tree: spec_install_seq(s.tree, p, Some(nodes)).0 },
                CmdView::Idle,
            ),
            Err(e) => (EditorView { doc: spec_record_error(s.doc, e), tree: s.tree }, CmdView::Idle),
        },
        MsgView::OpenTreeFile(p) => (s, CmdView::ReadFile(p)),
        MsgView::SaveFile => (s, CmdView::Save(s.doc.path, s.doc.content)),
        MsgView::SavedFile(r) => match r {
            Ok(p) => (EditorView { doc: spec_mark_saved(s.doc, p), tree: s.tree }, CmdView::Idle),
            Err(e) => (EditorView { doc: spec_record_error(s.doc, e), tree: s.tree }, CmdView::Idle),
        },
    }
}

/// The whole editor state: the document and the file tree. The controller
/// owns it exclusively; the presentation layer only reads a snapshot.
#[derive(Debug)]
pub struct Editor {
    pub doc: Document,
    pub tree: Vec<FileNode>,
}

impl View for Editor {
    type V = EditorView;

    open spec fn view(&self) -> EditorView {
        EditorView { doc: self.doc@, tree: nodes_view(self.tree@) }
    }
}

/// The status-line text: the description of the last I/O error if there is
/// one, else the document's path, else the placeholder name. A cancelled
/// dialog is deliberately not shown — it is not a fault.
pub open spec fn spec_status_text(d: DocView) -> Seq<char> {
    match d.last_error {
        Some(Error::IoError(k)) => kind_text(k),
        _ => match d.path {
            Some(p) => p,
            None => "New File"@,
        },
    }
}

/// The fallback starting directory listed at startup when the surrounding
/// shell supplies no other: the process's working directory.
pub fn default_directory() -> (r: String)
    ensures
        r@ == "."@,
{
    ".".to_owned()
}

/// The placeholder tree; mirrors `spec_placeholder_tree`.
fn placeholder_tree() -> (r: Vec<FileNode>)
    ensures
        nodes_view(r@) == spec_placeholder_tree(),
{
    let mut v: Vec<FileNode> = Vec::new();
    let node = FileNode::File { name: "New File".to_owned(), path: None };
    v.push(node);
    proof {
        assert(v@ =~= seq![node]);
        lemma_nodes_view_one(node);
        assert(nodes_view(v@) =~= spec_placeholder_tree());
    }
    v
}

/// The single-node tree for one opened file; mirrors `spec_file_tree`.
fn file_tree(path: &String) -> (r: Vec<FileNode>)
    ensures
        nodes_view(r@) == spec_file_tree(path@),
{
    let mut v: Vec<FileNode> = Vec::new();
    let node = FileNode::File { name: file_label(path), path: Some(path.clone()) };
    v.push(node);
    proof {
        assert(v@ =~= seq![node]);
        lemma_nodes_view_one(node);
        assert(nodes_view(v@) =~= spec_file_tree(path@));
    }
    v
}

impl Editor {
    /// The document's cursor sits within its buffer.
    pub open spec fn wf(self) -> bool {
        self@.doc.wf()
    }

    /// A fresh editor: blank unsaved document, placeholder tree, and the
    /// command to list the starting directory the shell chose.
    pub fn new(start_dir: String) -> (r: (Editor, Command))
        ensures
            r.0@ == (EditorView { doc: spec_reset_new(), tree: spec_placeholder_tree() }),
            r.0.wf(),
            cmd_view(r.1) == CmdView::ListDirectory(start_dir@),
    {
        let ed = Editor { doc: Document::new(), tree: placeholder_tree() };
        proof {
            assert(ed@ =~= EditorView { doc: spec_reset_new(), tree: spec_placeholder_tree() });
        }
        (ed, Command::ListDirectory(start_dir))
    }

    /// Applies one message and yields the command to dispatch; the exact
    /// effect of every message is `spec_update`. The controller never
    /// blocks: a command is handed to the shell, and its eventual result
    /// re-enters as a distinct message, in delivery order.
    pub fn update(&mut self, msg: Message) -> (cmd: Command)
        requires
            old(self).wf(),
        ensures
            final(self).wf(),
            final(self)@ == spec_update(old(self)@, msg_view(msg)).0,
            cmd_view(cmd) == spec_update(old(self)@, msg_view(msg)).1,
    {
        let ghost m0 = msg_view(msg);
        match msg {
            Message::ActionPerformed(a) => {
                self.doc.apply_edit(a);
                proof {
                    assert(self@ =~= spec_update(old(self)@, m0).0);
                }
                Command::Idle
            },
            Message::OpenFile => {
                proof {
                    assert(self@ =~= spec_update(old(self)@, m0).0);
                }
                Command::PickAndReadFile
            },
            Message::OpenedFile(res) => {
                match res {
                    Ok((content, path)) => {
                        let tree2 = file_tree(&path);
                        self.doc.load(content, path);
                        replace_root(&mut self.tree, tree2);
                        proof {
                            assert(self@ =~= spec_update(old(self)@, m0).0);
                        }
                    },
                    Err(e) => {
                        self.doc.record_error(e);
                        proof {
                            assert(self@ =~= spec_update(old(self)@, m0).0);
                        }
                    },
                }
                Command::Idle
            },
            Message::OpenedTreeFile(res) => {
                match res {
                    Ok((content, path)) => {
                        self.doc.load(content, path);
                        proof {
                            assert(self@ =~= spec_update(old(self)@, m0).0);
                        }
                    },
                    Err(e) => {
                        self.doc.record_error(e);
                        proof {
                            assert(self@ =~= spec_update(old(self)@, m0).0);
                        }
                    },
                }
                Command::Idle
            },
            Message::NewFile => {
                self.doc.reset_new();
                let tree2 = placeholder_tree();
                replace_root(&mut self.tree, tree2);
                proof {
                    assert(self@ =~= spec_update(old(self)@, m0).0);
                }
                Command::Idle
            },
            Message::OpenDirectory => {
                proof {
                    assert(self@ =~= spec_update(old(self)@, m0).0);
                }
                Command::PickAndListDirectory
            },
            Message::OpenedDirectory(res) => {
                match res {
                    Ok(nodes) => {
                        replace_root(&mut self.tree, nodes);
                        proof {
                            assert(self@ =~= spec_update(old(self)@, m0).0);
                        }
                    },
                    Err(e) => {
                        self.doc.record_error(e);
                        proof {
                            assert(self@ =~= spec_update(old(self)@, m0).0);
                        }
                    },
                }
                Command::Idle
            },
            Message::OpenChildDirectory(path) => {
                let out = toggle_nodes(&mut self.tree, &path);
                proof {
                    assert(self@ =~= spec_update(old(self)@, m0).0);
                }
                if out == ToggleOutcome::NeedsFetch {
                    Command::ListChildDirectory(path)
                } else {
                    Command::Idle
                }
            },
            Message::OpenedChildDirectory(res) => {
                match res {
                    Ok((nodes, path)) => {
                        set_dir_children(&mut self.tree, &path, nodes);
                        proof {
                            assert(self@ =~= spec_update(old(self)@, m0).0);
                        }
                    },
                    Err(e) => {
                        self.doc.record_error(e);
                        proof {
                            assert(self@ =~= spec_update(old(self)@, m0).0);
                        }
                    },
                }
                Command::Idle
            },
            Message::OpenTreeFile(path) => {
                proof {
                    assert(self@ =~= spec_update(old(self)@, m0).0);
                }
                Command::ReadFile(path)
            },
            Message::SaveFile => {
                proof {
                    assert(self@ =~= spec_update(old(self)@, m0).0);
                }
                Command::Save(clone_opt_string(&self.doc.path), self.doc.content.clone())
            },
            Message::SavedFile(res) => {
                match res {
                    Ok(path) => {
                        self.doc.mark_saved(path);
                        proof {
                            assert(self@ =~= spec_update(old(self)@, m0).0);
                        }
                    },
                    Err(e) => {
                        self.doc.record_error(e);
                        proof {
                            assert(self@ =~= spec_update(old(self)@, m0).0);
                        }
                    },
                }
                Command::Idle
            },
        }
    }

    /// The status-line text; see `spec_status_text`.
    pub fn status_text(&self) -> (r: String)
        ensures
            r@ == spec_status_text(self@.doc),
    {
        match &self.doc.last_error {
            Some(Error::IoError(k)) => k.message(),
            _ => match &self.doc.path {
                Some(p) => p.clone(),
                None => "New File".to_owned(),
            },
        }
    }
}

/// Law: a save followed by a load of the same path restores the buffer
/// byte-for-byte. The dispatched save command carries exactly the buffer
/// content; when the filesystem hands that same content back, loading it
/// leaves the buffer equal to what was saved and the document clean at that
/// path.
pub proof fn lemma_save_load_round_trip(s: EditorView, p: Seq<char>)
    ensures
        spec_update(s, MsgView::SaveFile).1 == CmdView::Save(s.doc.path, s.doc.content),
        ({
            let s1 = spec_update(s, MsgView::SaveFile).0;
            let s2 = spec_update(s1, MsgView::SavedFile(Ok(p))).0;
            let s3 = spec_update(s2, MsgView::OpenedTreeFile(Ok((s.doc.content, p)))).0;
            s3.doc.content == s.doc.content && s3.doc.path == Some(p) && !s3.doc.dirty
        }),
{
}

/// Law: a new file followed by an immediate save dispatches a save command
/// with no path, so the shell must show a save-path picker; and if the user
/// cancels it, the document keeps its (empty) content, missing path and
/// dirty state — the cancellation is recorded only as a non-fatal note that
/// the status line disregards.
pub proof fn lemma_new_file_save_cancelled(s: EditorView)
    ensures
        ({
            let s1 = spec_update(s, MsgView::NewFile).0;
            spec_update(s1, MsgView::SaveFile).1 == CmdView::Save(None, Seq::<char>::empty())
        }),
        ({
            let s1 = spec_update(s, MsgView::NewFile).0;
            let s2 = spec_update(s1, MsgView::SaveFile).0;
            let s3 = spec_update(s2, MsgView::SavedFile(Err(Error::DialogClosed))).0;
            s3.doc.content == s1.doc.content && s3.doc.path == s1.doc.path
                && s3.doc.dirty == s1.doc.dirty && s3.tree == s1.tree
                && s3.doc.last_error == Some(Error::DialogClosed)
                && spec_status_text(s3.doc) == spec_status_text(s1.doc)
        }),
{
}

} // verus!
