//! The command dispatcher: the closed set of commands the host can invoke,
//! and the one store operation each of them performs.

use vstd::prelude::*;

verus! {

use crate::text::{str_eq, str_is_blank, parse_usize, is_blank, all_digits, dec_val};
use crate::clips::{Clipboard, add_seq, edit_seq, delete_seq, next_id};

/// The closed set of commands; the host addresses them by name.
#[derive(Clone, Copy, PartialEq, Eq, Structural, Debug)]
pub enum CommandKind {
    AddText,
    AddImage,
    EditTextClip,
    DeleteTextClip,
    EditImageClip,
    DeleteImageClip,
    CopyImage,
}

/// The command a raw name denotes, if any.
pub open spec fn command_of_name(s: Seq<char>) -> Option<CommandKind> {
    if s == "add-text"@ {
        Some(CommandKind::AddText)
    } else if s == "add-image"@ {
        Some(CommandKind::AddImage)
    } else if s == "edit-text-clip"@ {
        Some(CommandKind::EditTextClip)
    } else if s == "delete-text-clip"@ {
        Some(CommandKind::DeleteTextClip)
    } else if s == "edit-image-clip"@ {
        Some(CommandKind::EditImageClip)
    } else if s == "delete-image-clip"@ {
        Some(CommandKind::DeleteImageClip)
    } else if s == "copy-image"@ {
        Some(CommandKind::CopyImage)
    } else {
        None
    }
}

/// Resolves an inbound command name to the command it denotes.
pub fn parse_command(name: &str) -> (r: Option<CommandKind>)
    ensures
        r == command_of_name(name@),
{
    if str_eq(name, "add-text") {
        Some(CommandKind::AddText)
    } else if str_eq(name, "add-image") {
        Some(CommandKind::AddImage)
    } else if str_eq(name, "edit-text-clip") {
        Some(CommandKind::EditTextClip)
    } else if str_eq(name, "delete-text-clip") {
        Some(CommandKind::DeleteTextClip)
    } else if str_eq(name, "edit-image-clip") {
        Some(CommandKind::EditImageClip)
    } else if str_eq(name, "delete-image-clip") {
        Some(CommandKind::DeleteImageClip)
    } else if str_eq(name, "copy-image") {
        Some(CommandKind::CopyImage)
    } else {
        None
    }
}

/// One submitted form field: its key and the value the user entered.
pub struct FormAnswer {
    pub key: String,
    pub value: String,
}

/// The value submitted under a key: the first answer with that key.
pub open spec fn lookup(form: Seq<FormAnswer>, key: Seq<char>) -> Option<Seq<char>>
    decreases form.len(),
{
    if form.len() == 0 {
        None
    } else if form.first().key@ == key {
        Some(form.first().value@)
    } else {
        lookup(form.drop_first(), key)
    }
}

/// The submitted value under this key, or `None` when the key is absent.
pub fn get_field(form: &Vec<FormAnswer>, key: &str) -> (r: Option<String>)
    ensures
        match r {
            Some(v) => lookup(form@, key@) == Some(v@),
            None => lookup(form@, key@) is None,
        },
{
    proof {
        assert(form@.skip(0) =~= form@);
    }
    let n = form.len();
    let mut i: usize = 0;
    while i < n
        invariant
            i <= n,
            n == form@.len(),
            lookup(form@, key@) == lookup(form@.skip(i as int), key@),
        decreases n - i,
    {
        proof {
            assert(form@.skip(i as int).first() == form@[i as int]);
            assert(form@.skip(i as int).drop_first() =~= form@.skip(i + 1));
        }
        let a = &form[i];
        if str_eq(a.key.as_str(), key) {
            return Some(a.value.clone());
        }
        i += 1;
    }
    proof {
        assert(form@.skip(n as int) =~= Seq::<FormAnswer>::empty());
    }
    None
}

/// A required field is present and not blank after trimming.
pub open spec fn field_ok(form: Seq<FormAnswer>, key: Seq<char>) -> bool {
    match lookup(form, key) {
        Some(v) => !is_blank(v),
        None => false,
    }
}

pub open spec fn field_val(form: Seq<FormAnswer>, key: Seq<char>) -> Seq<char> {
    match lookup(form, key) {
        Some(v) => v,
        None => Seq::empty(),
    }
}

/// The first positional argument parses as an id that fits in `usize`.
pub open spec fn id_arg_ok(args: Seq<String>) -> bool {
    args.len() > 0 && args[0]@.len() > 0 && all_digits(args[0]@) && dec_val(args[0]@)
        <= usize::MAX as int
}

pub open spec fn id_arg_val(args: Seq<String>) -> int {
    dec_val(args[0]@)
}

/// What a successfully dispatched command asks the caller to do.
pub enum CommandEffect {
    /// The clipboard changed; persist it and exit with success.
    Persist,
    /// Write the image at this path to the system clipboard; nothing to
    /// persist.
    CopyImagePath(String),
}

/// Why a command was refused; the clipboard is untouched in every case.
#[derive(Clone, Copy, PartialEq, Eq, Structural, Debug)]
pub enum CommandError {
    /// A required form field is missing or blank: the user is told, and the
    /// process exits with a failure status.
    Validation,
    /// The positional id argument does not parse as a non-negative integer
    /// that fits: malformed caller input, fatal.
    MalformedArgument,
    /// `copy-image` referenced an id no image clip has: fatal.
    Lookup,
}

/// Runs one command against the in-memory clipboard: validates its inputs,
/// performs the one store operation it denotes, and says what to do next.
/// Editing or deleting a well-formed id that no clip has is a silent no-op
/// that still persists; a failed validation or lookup leaves the clipboard
/// untouched.
pub fn run_command(
    cb: &mut Clipboard,
    command: CommandKind,
    args: &Vec<String>,
    form: &Vec<FormAnswer>,
) -> (r: Result<CommandEffect, CommandError>)
    requires
        next_id(old(cb)@.text_clips) <= usize::MAX as int,
        next_id(old(cb)@.image_clips) <= usize::MAX as int,
    ensures
        old(cb)@.wf() ==> final(cb)@.wf(),
        match command {
            CommandKind::AddText => {
                if field_ok(form@, "name"@) && field_ok(form@, "text"@) {
                    &&& r matches Ok(CommandEffect::Persist)
                    &&& final(cb)@.text_clips =~= add_seq(
                        old(cb)@.text_clips,
                        field_val(form@, "name"@),
                        field_val(form@, "text"@),
                    )
                    &&& final(cb)@.image_clips == old(cb)@.image_clips
                } else {
                    r matches Err(CommandError::Validation) && *final(cb) == *old(cb)
                }
            },
            CommandKind::AddImage => {
                if field_ok(form@, "name"@) && field_ok(form@, "path"@) {
                    &&& r matches Ok(CommandEffect::Persist)
                    &&& final(cb)@.image_clips =~= add_seq(
                        old(cb)@.image_clips,
                        field_val(form@, "name"@),
                        field_val(form@, "path"@),
                    )
                    &&& final(cb)@.text_clips == old(cb)@.text_clips
                } else {
                    r matches Err(CommandError::Validation) && *final(cb) == *old(cb)
                }
            },
            CommandKind::EditTextClip => {
                if !(field_ok(form@, "name"@) && field_ok(form@, "text"@)) {
                    r matches Err(CommandError::Validation) && *final(cb) == *old(cb)
                } else if !id_arg_ok(args@) {
                    r matches Err(CommandError::MalformedArgument) && *final(cb) == *old(cb)
                } else {
                    &&& r matches Ok(CommandEffect::Persist)
                    &&& final(cb)@.text_clips =~= edit_seq(
                        old(cb)@.text_clips,
                        id_arg_val(args@),
                        field_val(form@, "name"@),
                        field_val(form@, "text"@),
                    )
                    &&& final(cb)@.image_clips == old(cb)@.image_clips
                }
            },
            CommandKind::EditImageClip => {
                if !(field_ok(form@, "name"@) && field_ok(form@, "path"@)) {
                    r matches Err(CommandError::Validation) && *final(cb) == *old(cb)
                } else if !id_arg_ok(args@) {
                    r matches Err(CommandError::MalformedArgument) && *final(cb) == *old(cb)
                } else {
                    &&& r matches Ok(CommandEffect::Persist)
                    &&& final(cb)@.image_clips =~= edit_seq(
                        old(cb)@.image_clips,
                        id_arg_val(args@),
                        field_val(form@, "name"@),
                        field_val(form@, "path"@),
                    )
                    &&& final(cb)@.text_clips == old(cb)@.text_clips
                }
            },
            CommandKind::DeleteTextClip => {
                if !id_arg_ok(args@) {
                    r matches Err(CommandError::MalformedArgument) && *final(cb) == *old(cb)
                } else {
                    &&& r matches Ok(CommandEffect::Persist)
                    &&& final(cb)@.text_clips =~= delete_seq(old(cb)@.text_clips, id_arg_val(args@))
                    &&& final(cb)@.image_clips == old(cb)@.image_clips
                }
            },
            CommandKind::DeleteImageClip => {
                if !id_arg_ok(args@) {
                    r matches Err(CommandError::MalformedArgument) && *final(cb) == *old(cb)
                } else {
                    &&& r matches Ok(CommandEffect::Persist)
                    &&& final(cb)@.image_clips =~= delete_seq(old(cb)@.image_clips, id_arg_val(args@))
                    &&& final(cb)@.text_clips == old(cb)@.text_clips
                }
            },
            CommandKind::CopyImage => {
                &&& *final(cb) == *old(cb)
                &&& if !id_arg_ok(args@) {
                    r matches Err(CommandError::MalformedArgument)
                } else {
                    match r {
                        Ok(CommandEffect::CopyImagePath(p)) => exists|i: int|
                            0 <= i < old(cb)@.image_clips.len() && old(cb)@.image_clips[i].id
                                == id_arg_val(args@) && p@ == old(cb)@.image_clips[i].content,
                        Err(CommandError::Lookup) => forall|i: int|
                            0 <= i < old(cb)@.image_clips.len()
                                ==> old(cb)@.image_clips[i].id != id_arg_val(args@),
                        _ => false,
                    }
                }
            },
        },
{
    match command {
        CommandKind::AddText => {
            let name = get_field(form, "name");
            let text = get_field(form, "text");
            match (name, text) {
                (Some(name), Some(text)) => {
                    if str_is_blank(name.as_str()) || str_is_blank(text.as_str()) {
                        Err(CommandError::Validation)
                    } else {
                        cb.add_text(name, text);
                        Ok(CommandEffect::Persist)
                    }
                },
                _ => Err(CommandError::Validation),
            }
        },
        CommandKind::AddImage => {
            let name = get_field(form, "name");
            let path = get_field(form, "path");
            match (name, path) {
                (Some(name), Some(path)) => {
                    if str_is_blank(name.as_str()) || str_is_blank(path.as_str()) {
                        Err(CommandError::Validation)
                    } else {
                        cb.add_image(name, path);
                        Ok(CommandEffect::Persist)
                    }
                },
                _ => Err(CommandError::Validation),
            }
        },
        CommandKind::EditTextClip => {
            let name = get_field(form, "name");
            let text = get_field(form, "text");
            match (name, text) {
                (Some(name), Some(text)) => {
                    if str_is_blank(name.as_str()) || str_is_blank(text.as_str()) {
                        Err(CommandError::Validation)
                    } else {
                        match parse_id_arg(args) {
                            Some(id) => {
                                cb.edit_text(id, name.as_str(), text.as_str());
                                Ok(CommandEffect::Persist)
                            },
                            None => Err(CommandError::MalformedArgument),
                        }
                    }
                },
                _ => Err(CommandError::Validation),
            }
        },
        CommandKind::EditImageClip => {
            let name = get_field(form, "name");
            let path = get_field(form, "path");
            match (name, path) {
                (Some(name), Some(path)) => {
                    if str_is_blank(name.as_str()) || str_is_blank(path.as_str()) {
                        Err(CommandError::Validation)
                    } else {
                        match parse_id_arg(args) {
                            Some(id) => {
                                cb.edit_image(id, name.as_str(), path.as_str());
                                Ok(CommandEffect::Persist)
                            },
                            None => Err(CommandError::MalformedArgument),
                        }
                    }
                },
                _ => Err(CommandError::Validation),
            }
        },
        CommandKind::DeleteTextClip => {
            match parse_id_arg(args) {
                Some(id) => {
                    cb.delete_text(id);
                    Ok(CommandEffect::Persist)
                },
                None => Err(CommandError::MalformedArgument),
            }
        },
        CommandKind::DeleteImageClip => {
            match parse_id_arg(args) {
                Some(id) => {
                    cb.delete_image(id);
                    Ok(CommandEffect::Persist)
                },
                None => Err(CommandError::MalformedArgument),
            }
        },
        CommandKind::CopyImage => {
            match parse_id_arg(args) {
                Some(id) => {
                    match cb.find_image_path(id) {
                        Some(p) => Ok(CommandEffect::CopyImagePath(p)),
                        None => Err(CommandError::Lookup),
                    }
                },
                None => Err(CommandError::MalformedArgument),
            }
        },
    }
}

/// The id named by the first positional argument, when it parses.
fn parse_id_arg(args: &Vec<String>) -> (r: Option<usize>)
    ensures
        match r {
            Some(v) => id_arg_ok(args@) && v as int == id_arg_val(args@),
            None => !id_arg_ok(args@),
        },
{
    if args.len() == 0 {
        return None;
    }
    parse_usize(args[0].as_str())
}

} // verus!
