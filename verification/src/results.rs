//! Builds the response to a search request: either the two static "Add"
//! entries (on an empty default query) or, for every stored clip whose name
//! passes the fuzzy matcher, one entry shaped by the query mode.

use vstd::prelude::*;

verus! {

use vstd::string::*;
use crate::clips::{Clipboard, ClipView, TextClip, ImageClip};
use crate::query::{QueryMode, query_spec, parse_query};
use crate::matcher::{sniffer_match, fuzzy_matches};
use crate::dispatch::CommandKind;

/// How the host should render one form field.
#[derive(Clone, Copy, PartialEq, Eq, Structural, Debug)]
pub enum FieldKind {
    TextInput,
    ImageFilePicker,
}

/// One field of a form the host collects before running a command; every
/// field is required to be non-blank.
pub struct FormField {
    pub key: String,
    pub label: String,
    pub prefill: String,
    pub kind: FieldKind,
}

/// The one action a result entry carries.
pub enum EntryAction {
    /// Copy this text to the clipboard.
    CopyText { text: String },
    /// Copy the image at this path to the clipboard.
    CopyImage { path: String },
    /// Run the command on the clip with this id.
    RunCommand { command: CommandKind, id: usize },
    /// Open a form and submit it to the command, for the clip with this id
    /// (or for a new clip when there is none).
    OpenForm { command: CommandKind, id: Option<usize>, fields: Vec<FormField> },
}

/// One entry of the result list sent back to the host.
pub struct ResultEntry {
    pub title: String,
    pub description: Option<String>,
    /// An icon name the host resolves, or an image path shown as preview.
    pub icon: String,
    pub dangerous: bool,
    pub action: EntryAction,
}

pub open spec fn field_is(f: FormField, key: Seq<char>, label: Seq<char>, prefill: Seq<char>, kind: FieldKind) -> bool {
    f.key@ == key && f.label@ == label && f.prefill@ == prefill && f.kind == kind
}

pub open spec fn desc_is(o: Option<String>, v: Seq<char>) -> bool {
    match o {
        Some(d) => d@ == v,
        None => false,
    }
}

/// The static entry offering to add a text clip.
pub open spec fn is_add_text_entry(e: ResultEntry) -> bool {
    &&& e.title@ == "Add text to clipboard"@
    &&& e.description is None
    &&& e.icon@ == "plus"@
    &&& !e.dangerous
    &&& match e.action {
        EntryAction::OpenForm { command, id, fields } => {
            &&& command == CommandKind::AddText
            &&& id is None
            &&& fields@.len() == 2
            &&& field_is(fields@[0], "name"@, "Name"@, ""@, FieldKind::TextInput)
            &&& field_is(fields@[1], "text"@, "Text"@, ""@, FieldKind::TextInput)
        },
        _ => false,
    }
}

/// The static entry offering to add an image clip.
pub open spec fn is_add_image_entry(e: ResultEntry) -> bool {
    &&& e.title@ == "Add image to clipboard"@
    &&& e.description is None
    &&& e.icon@ == "plus"@
    &&& !e.dangerous
    &&& match e.action {
        EntryAction::OpenForm { command, id, fields } => {
            &&& command == CommandKind::AddImage
            &&& id is None
            &&& fields@.len() == 2
            &&& field_is(fields@[0], "name"@, "Name"@, ""@, FieldKind::TextInput)
            &&& field_is(fields@[1], "path"@, "Path"@, ""@, FieldKind::ImageFilePicker)
        },
        _ => false,
    }
}

/// The entry a text clip produces under the given mode: copy its text,
/// open a pre-filled edit form, or offer the delete command.
pub open spec fn text_entry_ok(mode: QueryMode, c: ClipView, e: ResultEntry) -> bool {
    match mode {
        QueryMode::Default => {
            &&& e.title@ == c.name
            &&& desc_is(e.description, c.content)
            &&& e.icon@ == "copy"@
            &&& !e.dangerous
            &&& match e.action {
                EntryAction::CopyText { text } => text@ == c.content,
                _ => false,
            }
        },
        QueryMode::Edit => {
            &&& e.title@ == "Edit "@ + c.name
            &&& e.description is None
            &&& e.icon@ == "pencil"@
            &&& !e.dangerous
            &&& match e.action {
                EntryAction::OpenForm { command, id, fields } => {
                    &&& command == CommandKind::EditTextClip
                    &&& match id {
                        Some(i) => i as int == c.id,
                        None => false,
                    }
                    &&& fields@.len() == 2
                    &&& field_is(fields@[0], "name"@, "Name"@, c.name, FieldKind::TextInput)
                    &&& field_is(fields@[1], "text"@, "Text"@, c.content, FieldKind::TextInput)
                },
                _ => false,
            }
        },
        QueryMode::Delete => {
            &&& e.title@ == "Delete "@ + c.name
            &&& desc_is(e.description, c.name)
            &&& e.icon@ == "trash"@
            &&& e.dangerous
            &&& match e.action {
                EntryAction::RunCommand { command, id } => command == CommandKind::DeleteTextClip
                    && id as int == c.id,
                _ => false,
            }
        },
    }
}

/// The entry an image clip produces under the given mode; its description is
/// the fixed word "Image", and in default mode the stored image itself is
/// the entry's icon.
pub open spec fn image_entry_ok(mode: QueryMode, c: ClipView, e: ResultEntry) -> bool {
    match mode {
        QueryMode::Default => {
            &&& e.title@ == c.name
            &&& desc_is(e.description, "Image"@)
            &&& e.icon@ == c.content
            &&& !e.dangerous
            &&& match e.action {
                EntryAction::CopyImage { path } => path@ == c.content,
                _ => false,
            }
        },
        QueryMode::Edit => {
            &&& e.title@ == "Edit "@ + c.name
            &&& desc_is(e.description, "Image"@)
            &&& e.icon@ == "pencil"@
            &&& !e.dangerous
            &&& match e.action {
                EntryAction::OpenForm { command, id, fields } => {
                    &&& command == CommandKind::EditImageClip
                    &&& match id {
                        Some(i) => i as int == c.id,
                        None => false,
                    }
                    &&& fields@.len() == 2
                    &&& field_is(fields@[0], "name"@, "Name"@, c.name, FieldKind::TextInput)
                    &&& field_is(fields@[1], "path"@, "Path"@, c.content, FieldKind::ImageFilePicker)
                },
                _ => false,
            }
        },
        QueryMode::Delete => {
            &&& e.title@ == "Delete "@ + c.name
            &&& desc_is(e.description, "Image"@)
            &&& e.icon@ == "trash"@
            &&& e.dangerous
            &&& match e.action {
                EntryAction::RunCommand { command, id } => command == CommandKind::DeleteImageClip
                    && id as int == c.id,
                _ => false,
            }
        },
    }
}

/// The clips whose name passes the fuzzy matcher for this search text.
pub open spec fn matching(clips: Seq<ClipView>, search: Seq<char>) -> Seq<ClipView> {
    clips.filter(|c: ClipView| sniffer_match(c.name, search))
}

fn make_add_text_entry() -> (r: ResultEntry)
    ensures
        is_add_text_entry(r),
{
    let mut fields: Vec<FormField> = Vec::new();
    fields.push(FormField {
        key: String::from_str("name"),
        label: String::from_str("Name"),
        prefill: String::from_str(""),
        kind: FieldKind::TextInput,
    });
    fields.push(FormField {
        key: String::from_str("text"),
        label: String::from_str("Text"),
        prefill: String::from_str(""),
        kind: FieldKind::TextInput,
    });
    ResultEntry {
        title: String::from_str("Add text to clipboard"),
        description: None,
        icon: String::from_str("plus"),
        dangerous: false,
        action: EntryAction::OpenForm { command: CommandKind::AddText, id: None, fields },
    }
}

fn make_add_image_entry() -> (r: ResultEntry)
    ensures
        is_add_image_entry(r),
{
    let mut fields: Vec<FormField> = Vec::new();
    fields.push(FormField {
        key: String::from_str("name"),
        label: String::from_str("Name"),
        prefill: String::from_str(""),
        kind: FieldKind::TextInput,
    });
    fields.push(FormField {
        key: String::from_str("path"),
        label: String::from_str("Path"),
        prefill: String::from_str(""),
        kind: FieldKind::ImageFilePicker,
    });
    ResultEntry {
        title: String::from_str("Add image to clipboard"),
        description: None,
        icon: String::from_str("plus"),
        dangerous: false,
        action: EntryAction::OpenForm { command: CommandKind::AddImage, id: None, fields },
    }
}

fn make_text_entry(mode: QueryMode, c: &TextClip) -> (r: ResultEntry)
    ensures
        text_entry_ok(mode, c@, r),
{
    match mode {
        QueryMode::Default => ResultEntry {
            title: c.name.clone(),
            description: Some(c.text.clone()),
            icon: String::from_str("copy"),
            dangerous: false,
            action: EntryAction::CopyText { text: c.text.clone() },
        },
        QueryMode::Edit => {
            let mut fields: Vec<FormField> = Vec::new();
            fields.push(FormField {
                key: String::from_str("name"),
                label: String::from_str("Name"),
                prefill: c.name.clone(),
                kind: FieldKind::TextInput,
            });
            fields.push(FormField {
                key: String::from_str("text"),
                label: String::from_str("Text"),
                prefill: c.text.clone(),
                kind: FieldKind::TextInput,
            });
            ResultEntry {
                title: String::from_str("Edit ").concat(c.name.as_str()),
                description: None,
                icon: String::from_str("pencil"),
                dangerous: false,
                action: EntryAction::OpenForm {
                    command: CommandKind::EditTextClip,
                    id: Some(c.id),
                    fields,
                },
            }
        },
        QueryMode::Delete => ResultEntry {
            title: String::from_str("Delete ").concat(c.name.as_str()),
            description: Some(c.name.clone()),
            icon: String::from_str("trash"),
            dangerous: true,
            action: EntryAction::RunCommand { command: CommandKind::DeleteTextClip, id: c.id },
        },
    }
}

fn make_image_entry(mode: QueryMode, c: &ImageClip) -> (r: ResultEntry)
    ensures
        image_entry_ok(mode, c@, r),
{
    match mode {
        QueryMode::Default => ResultEntry {
            title: c.name.clone(),
            description: Some(String::from_str("Image")),
            icon: c.path.clone(),
            dangerous: false,
            action: EntryAction::CopyImage { path: c.path.clone() },
        },
        QueryMode::Edit => {
            let mut fields: Vec<FormField> = Vec::new();
            fields.push(FormField {
                key: String::from_str("name"),
                label: String::from_str("Name"),
                prefill: c.name.clone(),
                kind: FieldKind::TextInput,
            });
            fields.push(FormField {
                key: String::from_str("path"),
                label: String::from_str("Path"),
                prefill: c.path.clone(),
                kind: FieldKind::ImageFilePicker,
            });
            ResultEntry {
                title: String::from_str("Edit ").concat(c.name.as_str()),
                description: Some(String::from_str("Image")),
                icon: String::from_str("pencil"),
                dangerous: false,
                action: EntryAction::OpenForm {
                    command: CommandKind::EditImageClip,
                    id: Some(c.id),
                    fields,
                },
            }
        },
        QueryMode::Delete => ResultEntry {
            title: String::from_str("Delete ").concat(c.name.as_str()),
            description: Some(String::from_str("Image")),
            icon: String::from_str("trash"),
            dangerous: true,
            action: EntryAction::RunCommand { command: CommandKind::DeleteImageClip, id: c.id },
        },
    }
}

/// Answers a search request from the stored clipboard and the raw search
/// string. An empty default query yields exactly the two "Add" entries; any
/// other query yields one mode-shaped entry per matching text clip, in store
/// order, followed by one per matching image clip.
pub fn build_search_results(cb: &Clipboard, raw: &str) -> (r: Vec<ResultEntry>)
    ensures
        ({
            let mode = query_spec(raw@).0;
            let search = query_spec(raw@).1;
            if search.len() == 0 && mode == QueryMode::Default {
                &&& r@.len() == 2
                &&& is_add_text_entry(r@[0])
                &&& is_add_image_entry(r@[1])
            } else {
                let mt = matching(cb@.text_clips, search);
                let mi = matching(cb@.image_clips, search);
                &&& r@.len() == mt.len() + mi.len()
                &&& forall|j: int| 0 <= j < mt.len() ==> text_entry_ok(mode, mt[j], #[trigger] r@[j])
                &&& forall|j: int|
                    0 <= j < mi.len() ==> image_entry_ok(mode, mi[j], #[trigger] r@[mt.len() + j])
            }
        }),
{
    let q = parse_query(raw);
    let mode = q.mode;
    let search = q.search_text.as_str();
    let ghost sv = query_spec(raw@).1;
    if search.unicode_len() == 0 && mode == QueryMode::Default {
        let mut out: Vec<ResultEntry> = Vec::new();
        out.push(make_add_text_entry());
        out.push(make_add_image_entry());
        return out;
    }
    let ghost tv = crate::clips::text_views(cb.text_clips@);
    let ghost iv = crate::clips::image_views(cb.image_clips@);
    let mut out: Vec<ResultEntry> = Vec::new();
    let nt = cb.text_clips.len();
    let mut i: usize = 0;
    while i < nt
        invariant
            i <= nt,
            nt == cb.text_clips.len(),
            tv == crate::clips::text_views(cb.text_clips@),
            sv == q.search_text@,
            search@ == sv,
            mode == q.mode,
            out@.len() == matching(tv.take(i as int), sv).len(),
            forall|j: int|
                0 <= j < out@.len() ==> text_entry_ok(mode, matching(tv.take(i as int), sv)[j], #[trigger] out@[j]),
        decreases nt - i,
    {
        proof {
            reveal(Seq::filter);
            assert(tv[i as int] == cb.text_clips@[i as int]@);
            assert(tv.take(i + 1).drop_last() =~= tv.take(i as int));
            assert(tv.take(i + 1).last() == tv[i as int]);
        }
        let c = &cb.text_clips[i];
        if fuzzy_matches(c.name.as_str(), search) {
            out.push(make_text_entry(mode, c));
            proof {
                assert(matching(tv.take(i + 1), sv) =~= matching(tv.take(i as int), sv).push(tv[i as int]));
            }
        } else {
            proof {
                assert(matching(tv.take(i + 1), sv) =~= matching(tv.take(i as int), sv));
            }
        }
        i += 1;
    }
    proof {
        assert(tv.take(nt as int) =~= tv);
    }
    let ghost base = out@.len() as int;
    let ni = cb.image_clips.len();
    let mut k: usize = 0;
    while k < ni
        invariant
            k <= ni,
            ni == cb.image_clips.len(),
            tv == crate::clips::text_views(cb.text_clips@),
            iv == crate::clips::image_views(cb.image_clips@),
            sv == q.search_text@,
            search@ == sv,
            mode == q.mode,
            base == matching(tv, sv).len(),
            out@.len() == base + matching(iv.take(k as int), sv).len(),
            forall|j: int|
                0 <= j < base ==> text_entry_ok(mode, matching(tv, sv)[j], #[trigger] out@[j]),
            forall|j: int|
                0 <= j < matching(iv.take(k as int), sv).len() ==> image_entry_ok(
                    mode,
                    matching(iv.take(k as int), sv)[j],
                    #[trigger] out@[base + j],
                ),
        decreases ni - k,
    {
        proof {
            reveal(Seq::filter);
            assert(iv[k as int] == cb.image_clips@[k as int]@);
            assert(iv.take(k + 1).drop_last() =~= iv.take(k as int));
            assert(iv.take(k + 1).last() == iv[k as int]);
        }
        let c = &cb.image_clips[k];
        if fuzzy_matches(c.name.as_str(), search) {
            out.push(make_image_entry(mode, c));
            proof {
                assert(matching(iv.take(k + 1), sv) =~= matching(iv.take(k as int), sv).push(iv[k as int]));
            }
        } else {
            proof {
                assert(matching(iv.take(k + 1), sv) =~= matching(iv.take(k as int), sv));
            }
        }
        k += 1;
    }
    proof {
        assert(iv.take(ni as int) =~= iv);
    }
    out
}

} // verus!
