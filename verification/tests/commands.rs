use clip_registry::clips::{Clipboard, TextClip};
use clip_registry::dispatch::{
    get_field, parse_command, run_command, CommandEffect, CommandError, CommandKind, FormAnswer,
};

fn answer(key: &str, value: &str) -> FormAnswer {
    FormAnswer { key: key.to_string(), value: value.to_string() }
}

fn args(xs: &[&str]) -> Vec<String> {
    xs.iter().map(|s| s.to_string()).collect()
}

fn store_with_clips() -> Clipboard {
    let mut cb = Clipboard::new();
    cb.add_text("Robot Notes".to_string(), "beep".to_string());
    cb.add_text("Groceries".to_string(), "milk".to_string());
    cb.add_image("Screenshot".to_string(), "/tmp/shot.png".to_string());
    cb
}

#[test]
fn command_names_resolve() {
    assert_eq!(parse_command("add-text"), Some(CommandKind::AddText));
    assert_eq!(parse_command("add-image"), Some(CommandKind::AddImage));
    assert_eq!(parse_command("edit-text-clip"), Some(CommandKind::EditTextClip));
    assert_eq!(parse_command("delete-text-clip"), Some(CommandKind::DeleteTextClip));
    assert_eq!(parse_command("edit-image-clip"), Some(CommandKind::EditImageClip));
    assert_eq!(parse_command("delete-image-clip"), Some(CommandKind::DeleteImageClip));
    assert_eq!(parse_command("copy-image"), Some(CommandKind::CopyImage));
    assert_eq!(parse_command("add-text "), None);
    assert_eq!(parse_command("frobnicate"), None);
}

#[test]
fn get_field_returns_first_match() {
    let form = vec![answer("name", "a"), answer("text", "b"), answer("name", "c")];
    assert_eq!(get_field(&form, "name"), Some("a".to_string()));
    assert_eq!(get_field(&form, "text"), Some("b".to_string()));
    assert_eq!(get_field(&form, "path"), None);
}

#[test]
fn add_text_appends_and_asks_to_persist() {
    let mut cb = Clipboard::new();
    let form = vec![answer("name", "Snippet A"), answer("text", "hello")];
    let r = run_command(&mut cb, CommandKind::AddText, &args(&[]), &form);
    assert!(matches!(r, Ok(CommandEffect::Persist)));
    assert_eq!(cb.text_clips.len(), 1);
    assert_eq!(cb.text_clips[0].id, 0);
    assert_eq!(cb.text_clips[0].name, "Snippet A");
    assert_eq!(cb.text_clips[0].text, "hello");
}

#[test]
fn add_image_with_blank_name_is_refused_without_mutation() {
    let mut cb = store_with_clips();
    let texts_before = cb.text_clips.len();
    let images_before = cb.image_clips.len();
    let form = vec![answer("name", "   "), answer("path", "/tmp/x.png")];
    let r = run_command(&mut cb, CommandKind::AddImage, &args(&[]), &form);
    assert!(matches!(r, Err(CommandError::Validation)));
    assert_eq!(cb.text_clips.len(), texts_before);
    assert_eq!(cb.image_clips.len(), images_before);
}

#[test]
fn add_text_with_missing_field_is_refused() {
    let mut cb = Clipboard::new();
    let form = vec![answer("name", "only a name")];
    let r = run_command(&mut cb, CommandKind::AddText, &args(&[]), &form);
    assert!(matches!(r, Err(CommandError::Validation)));
    assert!(cb.text_clips.is_empty());
}

#[test]
fn edit_text_clip_overwrites_by_id() {
    let mut cb = store_with_clips();
    let form = vec![answer("name", "Robot Data"), answer("text", "boop")];
    let r = run_command(&mut cb, CommandKind::EditTextClip, &args(&["0"]), &form);
    assert!(matches!(r, Ok(CommandEffect::Persist)));
    assert_eq!(cb.text_clips[0].name, "Robot Data");
    assert_eq!(cb.text_clips[0].text, "boop");
    assert_eq!(cb.text_clips[1].name, "Groceries");
}

#[test]
fn edit_with_unparsable_id_is_a_malformed_argument() {
    let mut cb = store_with_clips();
    let form = vec![answer("name", "x"), answer("text", "y")];
    let r = run_command(&mut cb, CommandKind::EditTextClip, &args(&["zero"]), &form);
    assert!(matches!(r, Err(CommandError::MalformedArgument)));
    assert_eq!(cb.text_clips[0].name, "Robot Notes");
    let r = run_command(&mut cb, CommandKind::DeleteTextClip, &args(&[]), &vec![]);
    assert!(matches!(r, Err(CommandError::MalformedArgument)));
}

#[test]
fn edit_of_missing_id_is_a_silent_noop() {
    let mut cb = store_with_clips();
    let form = vec![answer("name", "x"), answer("text", "y")];
    let r = run_command(&mut cb, CommandKind::EditTextClip, &args(&["37"]), &form);
    assert!(matches!(r, Ok(CommandEffect::Persist)));
    assert_eq!(cb.text_clips[0].name, "Robot Notes");
    assert_eq!(cb.text_clips[1].name, "Groceries");
}

#[test]
fn delete_text_clip_removes_by_id_and_is_idempotent() {
    let mut cb = store_with_clips();
    let r = run_command(&mut cb, CommandKind::DeleteTextClip, &args(&["0"]), &vec![]);
    assert!(matches!(r, Ok(CommandEffect::Persist)));
    assert_eq!(cb.text_clips.len(), 1);
    let r = run_command(&mut cb, CommandKind::DeleteTextClip, &args(&["0"]), &vec![]);
    assert!(matches!(r, Ok(CommandEffect::Persist)));
    assert_eq!(cb.text_clips.len(), 1);
    assert_eq!(cb.text_clips[0].id, 1);
}

#[test]
fn delete_image_clip_removes_by_id() {
    let mut cb = store_with_clips();
    let r = run_command(&mut cb, CommandKind::DeleteImageClip, &args(&["0"]), &vec![]);
    assert!(matches!(r, Ok(CommandEffect::Persist)));
    assert!(cb.image_clips.is_empty());
}

#[test]
fn edit_image_clip_overwrites_by_id() {
    let mut cb = store_with_clips();
    let form = vec![answer("name", "Shot"), answer("path", "/tmp/new.png")];
    let r = run_command(&mut cb, CommandKind::EditImageClip, &args(&["0"]), &form);
    assert!(matches!(r, Ok(CommandEffect::Persist)));
    assert_eq!(cb.image_clips[0].name, "Shot");
    assert_eq!(cb.image_clips[0].path, "/tmp/new.png");
}

#[test]
fn copy_image_resolves_the_stored_path() {
    let mut cb = store_with_clips();
    let r = run_command(&mut cb, CommandKind::CopyImage, &args(&["0"]), &vec![]);
    match r {
        Ok(CommandEffect::CopyImagePath(p)) => assert_eq!(p, "/tmp/shot.png"),
        other => panic!("unexpected outcome: {:?}", other.is_ok()),
    }
    assert_eq!(cb.image_clips.len(), 1);
}

#[test]
fn copy_image_of_unknown_id_is_a_lookup_error() {
    let mut cb = store_with_clips();
    let r = run_command(&mut cb, CommandKind::CopyImage, &args(&["12"]), &vec![]);
    assert!(matches!(r, Err(CommandError::Lookup)));
}

fn text_clip(id: usize, name: &str) -> TextClip {
    TextClip { id, name: name.to_string(), text: String::new() }
}

#[test]
fn validation_checks_blankness_after_trimming() {
    let mut cb = Clipboard { text_clips: vec![text_clip(0, "a")], image_clips: vec![] };
    let form = vec![answer("name", "\t\n "), answer("text", "body")];
    let r = run_command(&mut cb, CommandKind::AddText, &args(&[]), &form);
    assert!(matches!(r, Err(CommandError::Validation)));
    assert_eq!(cb.text_clips.len(), 1);
}
