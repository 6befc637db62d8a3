use xeditor::document::Document;
use xeditor::document::EditAction;
use xeditor::errors::Error;
use xeditor::errors::IoErrorKind;

#[test]
fn new_document_is_blank_unsaved_and_dirty() {
    let d = Document::new();
    assert_eq!(d.content, "");
    assert_eq!(d.cursor, 0);
    assert!(d.path.is_none());
    assert!(d.dirty, "a fresh document forces an explicit save prompt");
    assert!(d.last_error.is_none());
}

#[test]
fn load_replaces_content_and_clears_dirty() {
    let mut d = Document::new();
    d.load("hello world".to_string(), "/tmp/hello.txt".to_string());
    assert_eq!(d.content, "hello world");
    assert_eq!(d.path.as_deref(), Some("/tmp/hello.txt"));
    assert!(!d.dirty);
    assert_eq!(d.cursor, 0);
    assert!(d.last_error.is_none());
}

#[test]
fn any_content_changing_edit_sets_dirty() {
    let mut d = Document::new();
    d.load("ab".to_string(), "/t/f".to_string());
    assert!(!d.dirty);
    d.apply_edit(EditAction::Insert("X".to_string()));
    assert!(d.dirty, "an insert dirties a clean document");
    assert_eq!(d.content, "Xab");

    let mut d2 = Document::new();
    d2.load("ab".to_string(), "/t/f".to_string());
    d2.apply_edit(EditAction::MoveRight);
    d2.apply_edit(EditAction::Backspace);
    assert!(d2.dirty, "a removal dirties a clean document");
    assert_eq!(d2.content, "b");
}

#[test]
fn cursor_moves_do_not_dirty_or_change_content() {
    let mut d = Document::new();
    d.load("abc".to_string(), "/t/f".to_string());
    d.apply_edit(EditAction::MoveRight);
    d.apply_edit(EditAction::MoveRight);
    d.apply_edit(EditAction::MoveLeft);
    assert_eq!(d.cursor, 1);
    assert_eq!(d.content, "abc");
    assert!(!d.dirty);
}

#[test]
fn insert_lands_at_the_cursor() {
    let mut d = Document::new();
    d.load("ad".to_string(), "/t/f".to_string());
    d.apply_edit(EditAction::MoveRight);
    d.apply_edit(EditAction::Insert("bc".to_string()));
    assert_eq!(d.content, "abcd");
    assert_eq!(d.cursor, 3, "the cursor ends just after the inserted text");
}

#[test]
fn backspace_at_start_and_delete_at_end_are_no_ops_on_content() {
    let mut d = Document::new();
    d.load("ab".to_string(), "/t/f".to_string());
    d.apply_edit(EditAction::Backspace);
    assert_eq!(d.content, "ab");
    d.apply_edit(EditAction::MoveRight);
    d.apply_edit(EditAction::MoveRight);
    d.apply_edit(EditAction::Delete);
    assert_eq!(d.content, "ab");
}

#[test]
fn delete_removes_the_character_at_the_cursor() {
    let mut d = Document::new();
    d.load("abc".to_string(), "/t/f".to_string());
    d.apply_edit(EditAction::MoveRight);
    d.apply_edit(EditAction::Delete);
    assert_eq!(d.content, "ac");
    assert_eq!(d.cursor, 1);
}

#[test]
fn edits_work_on_multibyte_text() {
    let mut d = Document::new();
    d.load("aé".to_string(), "/t/f".to_string());
    d.apply_edit(EditAction::MoveRight);
    d.apply_edit(EditAction::MoveRight);
    d.apply_edit(EditAction::Insert("ü".to_string()));
    assert_eq!(d.content, "aéü");
    assert_eq!(d.cursor, 3);
    d.apply_edit(EditAction::Backspace);
    assert_eq!(d.content, "aé");
}

#[test]
fn an_edit_clears_the_last_error() {
    let mut d = Document::new();
    d.record_error(Error::IoError(IoErrorKind::NotFound));
    assert!(d.last_error.is_some());
    d.apply_edit(EditAction::Insert("x".to_string()));
    assert!(d.last_error.is_none());
}

#[test]
fn reset_new_clears_everything_but_stays_dirty() {
    let mut d = Document::new();
    d.load("text".to_string(), "/t/f".to_string());
    d.apply_edit(EditAction::Insert("y".to_string()));
    d.reset_new();
    assert_eq!(d.content, "");
    assert!(d.path.is_none());
    assert!(d.dirty);
    assert!(d.last_error.is_none());
}

#[test]
fn mark_saved_records_the_path_and_cleans() {
    let mut d = Document::new();
    d.apply_edit(EditAction::Insert("text".to_string()));
    assert!(d.dirty);
    d.mark_saved("/t/saved.txt".to_string());
    assert_eq!(d.path.as_deref(), Some("/t/saved.txt"));
    assert!(!d.dirty);
    assert_eq!(d.content, "text", "saving does not touch the buffer");
}

#[test]
fn record_error_keeps_buffer_and_dirty_flag() {
    let mut d = Document::new();
    d.load("text".to_string(), "/t/f".to_string());
    d.record_error(Error::DialogClosed);
    assert_eq!(d.content, "text");
    assert!(!d.dirty);
    assert_eq!(d.last_error, Some(Error::DialogClosed));
    // A later error replaces the earlier one.
    d.record_error(Error::IoError(IoErrorKind::PermissionDenied));
    assert_eq!(d.last_error, Some(Error::IoError(IoErrorKind::PermissionDenied)));
}

#[test]
fn error_messages_name_each_kind() {
    assert_eq!(Error::DialogClosed.message(), "dialog closed");
    assert_eq!(Error::IoError(IoErrorKind::NotFound).message(), "file not found");
    assert_eq!(Error::IoError(IoErrorKind::PermissionDenied).message(), "permission denied");
    assert_eq!(Error::IoError(IoErrorKind::AlreadyExists).message(), "already exists");
    assert_eq!(Error::IoError(IoErrorKind::InvalidData).message(), "invalid data");
    assert_eq!(Error::IoError(IoErrorKind::Other).message(), "i/o error");
}

#[test]
fn is_edit_distinguishes_edits_from_moves() {
    assert!(EditAction::Insert(String::new()).is_edit());
    assert!(EditAction::Backspace.is_edit());
    assert!(EditAction::Delete.is_edit());
    assert!(!EditAction::MoveLeft.is_edit());
    assert!(!EditAction::MoveRight.is_edit());
}
