use clip_registry::clips::Clipboard;
use clip_registry::dispatch::CommandKind;
use clip_registry::results::{build_search_results, EntryAction, FieldKind};

fn store_with_clips() -> Clipboard {
    let mut cb = Clipboard::new();
    cb.add_text("Robot Notes".to_string(), "beep boop".to_string());
    cb.add_text("Groceries".to_string(), "milk".to_string());
    cb.add_image("Snippet shot".to_string(), "/tmp/shot.png".to_string());
    cb
}

#[test]
fn empty_default_query_yields_exactly_the_two_add_entries() {
    let cb = store_with_clips();
    let r = build_search_results(&cb, "");
    assert_eq!(r.len(), 2);
    assert_eq!(r[0].title, "Add text to clipboard");
    assert_eq!(r[1].title, "Add image to clipboard");
    match &r[0].action {
        EntryAction::OpenForm { command, id, fields } => {
            assert_eq!(*command, CommandKind::AddText);
            assert!(id.is_none());
            assert_eq!(fields.len(), 2);
            assert_eq!(fields[0].key, "name");
            assert_eq!(fields[1].key, "text");
            assert_eq!(fields[1].kind, FieldKind::TextInput);
        },
        _ => panic!("first entry must open the add-text form"),
    }
    match &r[1].action {
        EntryAction::OpenForm { command, id, fields } => {
            assert_eq!(*command, CommandKind::AddImage);
            assert!(id.is_none());
            assert_eq!(fields[1].key, "path");
            assert_eq!(fields[1].kind, FieldKind::ImageFilePicker);
        },
        _ => panic!("second entry must open the add-image form"),
    }
}

#[test]
fn empty_default_query_ignores_store_contents() {
    let empty = Clipboard::new();
    let full = store_with_clips();
    assert_eq!(build_search_results(&empty, "").len(), 2);
    assert_eq!(build_search_results(&full, "").len(), 2);
}

#[test]
fn default_query_lists_matching_clips_as_copy_entries() {
    let cb = store_with_clips();
    let r = build_search_results(&cb, "robot");
    assert_eq!(r.len(), 1);
    assert_eq!(r[0].title, "Robot Notes");
    assert_eq!(r[0].icon, "copy");
    assert!(!r[0].dangerous);
    match &r[0].action {
        EntryAction::CopyText { text } => assert_eq!(text, "beep boop"),
        _ => panic!("default mode must offer to copy the text"),
    }
}

#[test]
fn edit_query_strips_keyword_and_prefills_forms() {
    let cb = store_with_clips();
    let r = build_search_results(&cb, "e snippet");
    // Of the three clips only the image named "Snippet shot" matches.
    assert_eq!(r.len(), 1);
    assert_eq!(r[0].title, "Edit Snippet shot");
    assert_eq!(r[0].icon, "pencil");
    match &r[0].action {
        EntryAction::OpenForm { command, id, fields } => {
            assert_eq!(*command, CommandKind::EditImageClip);
            assert_eq!(*id, Some(0));
            assert_eq!(fields[0].key, "name");
            assert_eq!(fields[0].prefill, "Snippet shot");
            assert_eq!(fields[1].key, "path");
            assert_eq!(fields[1].prefill, "/tmp/shot.png");
            assert_eq!(fields[1].kind, FieldKind::ImageFilePicker);
        },
        _ => panic!("edit mode must open a pre-filled form"),
    }
}

#[test]
fn edit_query_over_all_clips_with_blank_search() {
    let cb = store_with_clips();
    // "e " leaves an empty search, which matches every clip: not the add list.
    let r = build_search_results(&cb, "e ");
    assert_eq!(r.len(), 3);
    assert_eq!(r[0].title, "Edit Robot Notes");
    match &r[0].action {
        EntryAction::OpenForm { command, id, fields } => {
            assert_eq!(*command, CommandKind::EditTextClip);
            assert_eq!(*id, Some(0));
            assert_eq!(fields[0].prefill, "Robot Notes");
            assert_eq!(fields[1].prefill, "beep boop");
        },
        _ => panic!("edit mode must open a pre-filled form"),
    }
}

#[test]
fn delete_query_offers_the_delete_command() {
    let cb = store_with_clips();
    let r = build_search_results(&cb, "d groceries");
    assert_eq!(r.len(), 1);
    assert_eq!(r[0].title, "Delete Groceries");
    assert_eq!(r[0].icon, "trash");
    assert!(r[0].dangerous);
    match &r[0].action {
        EntryAction::RunCommand { command, id } => {
            assert_eq!(*command, CommandKind::DeleteTextClip);
            assert_eq!(*id, 1);
        },
        _ => panic!("delete mode must offer the delete command"),
    }
}

#[test]
fn image_entries_use_the_image_as_icon_in_default_mode() {
    let cb = store_with_clips();
    let r = build_search_results(&cb, "shot");
    assert_eq!(r.len(), 1);
    assert_eq!(r[0].icon, "/tmp/shot.png");
    assert_eq!(r[0].description, Some("Image".to_string()));
    match &r[0].action {
        EntryAction::CopyImage { path } => assert_eq!(path, "/tmp/shot.png"),
        _ => panic!("default mode must offer to copy the image"),
    }
}

#[test]
fn unmatched_search_yields_no_entries() {
    let cb = store_with_clips();
    let r = build_search_results(&cb, "zzz");
    assert!(r.is_empty());
}
