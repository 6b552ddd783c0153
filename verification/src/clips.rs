//! The clipboard aggregate: text clips and image clips with unique ids per
//! collection, id allocation, and the add / edit / delete operations.

use vstd::prelude::*;

verus! {

/// What a single clip is mathematically: an id, a name, and its content
/// (the text of a text clip, or the path of an image clip).
pub struct ClipView {
    pub id: int,
    pub name: Seq<char>,
    pub content: Seq<char>,
}

#[verifier::ext_equal]
pub struct ClipboardView {
    pub text_clips: Seq<ClipView>,
    pub image_clips: Seq<ClipView>,
}

/// A stored text snippet.
pub struct TextClip {
    pub id: usize,
    pub name: String,
    pub text: String,
}

/// A stored image snippet; `path` is the image file's location.
pub struct ImageClip {
    pub id: usize,
    pub name: String,
    pub path: String,
}

/// The aggregate that is persisted as one blob.
pub struct Clipboard {
    pub text_clips: Vec<TextClip>,
    pub image_clips: Vec<ImageClip>,
}

impl View for TextClip {
    type V = ClipView;

    open spec fn view(&self) -> ClipView {
        ClipView { id: self.id as int, name: self.name@, content: self.text@ }
    }
}

impl View for ImageClip {
    type V = ClipView;

    open spec fn view(&self) -> ClipView {
        ClipView { id: self.id as int, name: self.name@, content: self.path@ }
    }
}

pub open spec fn text_views(s: Seq<TextClip>) -> Seq<ClipView> {
    s.map_values(|c: TextClip| c@)
}

pub open spec fn image_views(s: Seq<ImageClip>) -> Seq<ClipView> {
    s.map_values(|c: ImageClip| c@)
}

impl View for Clipboard {
    type V = ClipboardView;

    open spec fn view(&self) -> ClipboardView {
        ClipboardView {
            text_clips: text_views(self.text_clips@),
            image_clips: image_views(self.image_clips@),
        }
    }
}

/// The id the next added clip gets: 0 on an empty collection, otherwise one
/// more than the largest id present.
pub open spec fn next_id(s: Seq<ClipView>) -> int
    decreases s.len(),
{
    if s.len() == 0 {
        0
    } else {
        vstd::math::max(next_id(s.drop_last()), s.last().id + 1)
    }
}

/// Within one collection ids are unique.
pub open spec fn unique_ids(s: Seq<ClipView>) -> bool {
    forall|i: int, j: int| 0 <= i < j < s.len() ==> s[i].id != s[j].id
}

/// Ids are non-negative.
pub open spec fn ids_nonneg(s: Seq<ClipView>) -> bool {
    forall|i: int| 0 <= i < s.len() ==> s[i].id >= 0
}

impl ClipboardView {
    /// The aggregate's invariant: ids unique and non-negative in each
    /// collection; the two collections have independent id spaces.
    pub open spec fn wf(self) -> bool {
        &&& unique_ids(self.text_clips)
        &&& ids_nonneg(self.text_clips)
        &&& unique_ids(self.image_clips)
        &&& ids_nonneg(self.image_clips)
    }
}

/// Adding allocates the next id and appends.
pub open spec fn add_seq(s: Seq<ClipView>, name: Seq<char>, content: Seq<char>) -> Seq<ClipView> {
    s.push(ClipView { id: next_id(s), name, content })
}

/// Editing overwrites name and content of every clip with the given id
/// (of the one such clip, when ids are unique) and keeps the rest.
pub open spec fn edit_seq(s: Seq<ClipView>, id: int, name: Seq<char>, content: Seq<char>) -> Seq<ClipView> {
    s.map_values(
        |c: ClipView|
            if c.id == id {
                ClipView { id: c.id, name, content }
            } else {
                c
            },
    )
}

/// Deleting keeps exactly the clips whose id differs.
pub open spec fn delete_seq(s: Seq<ClipView>, id: int) -> Seq<ClipView> {
    s.filter(|c: ClipView| c.id != id)
}

impl TextClip {
    /// A text clip with the given id; the id comes from the collection it is
    /// destined for, through `get_new_text_clip_id`.
    pub fn new(id: usize, name: String, text: String) -> (r: TextClip)
        ensures
            r@ == (ClipView { id: id as int, name: name@, content: text@ }),
    {
        TextClip { id, name, text }
    }

    /// A copy with the same id, name and text.
    pub fn duplicate(&self) -> (r: TextClip)
        ensures
            r@ == self@,
    {
        TextClip { id: self.id, name: self.name.clone(), text: self.text.clone() }
    }

    /// Overwrites the name, keeps id and text, and returns a copy.
    pub fn set_name(&mut self, name: String) -> (r: TextClip)
        ensures
            final(self)@ == (ClipView { id: old(self)@.id, name: name@, content: old(self)@.content }),
            r@ == final(self)@,
    {
        self.name = name;
        self.duplicate()
    }

    /// Overwrites the text, keeps id and name, and returns a copy.
    pub fn set_text(&mut self, text: String) -> (r: TextClip)
        ensures
            final(self)@ == (ClipView { id: old(self)@.id, name: old(self)@.name, content: text@ }),
            r@ == final(self)@,
    {
        self.text = text;
        self.duplicate()
    }
}

impl ImageClip {
    /// An image clip with the given id; the id comes from the collection it
    /// is destined for, through `get_new_image_clip_id`.
    pub fn new(id: usize, name: String, path: String) -> (r: ImageClip)
        ensures
            r@ == (ClipView { id: id as int, name: name@, content: path@ }),
    {
        ImageClip { id, name, path }
    }

    /// A copy with the same id, name and path.
    pub fn duplicate(&self) -> (r: ImageClip)
        ensures
            r@ == self@,
    {
        ImageClip { id: self.id, name: self.name.clone(), path: self.path.clone() }
    }

    /// Overwrites the name, keeps id and path, and returns a copy.
    pub fn set_name(&mut self, name: String) -> (r: ImageClip)
        ensures
            final(self)@ == (ClipView { id: old(self)@.id, name: name@, content: old(self)@.content }),
            r@ == final(self)@,
    {
        self.name = name;
        self.duplicate()
    }

    /// Overwrites the path, keeps id and name, and returns a copy.
    pub fn set_path(&mut self, path: String) -> (r: ImageClip)
        ensures
            final(self)@ == (ClipView { id: old(self)@.id, name: old(self)@.name, content: path@ }),
            r@ == final(self)@,
    {
        self.path = path;
        self.duplicate()
    }
}

/// The id the next text clip added to `clips` gets: 0 when the collection is
/// empty, else one more than the largest id present.
pub fn get_new_text_clip_id(clips: &Vec<TextClip>) -> (r: usize)
    requires
        next_id(text_views(clips@)) <= usize::MAX as int,
    ensures
        r as int == next_id(text_views(clips@)),
{
    let ghost s = text_views(clips@);
    let n = clips.len();
    let mut best: usize = 0;
    let mut i: usize = 0;
    while i < n
        invariant
            i <= n,
            n == clips.len(),
            s == text_views(clips@),
            next_id(s) <= usize::MAX as int,
            best as int == next_id(s.take(i as int)),
        decreases n - i,
    {
        proof {
            assert(s[i as int] == clips@[i as int]@);
            assert(s.take(i + 1).drop_last() =~= s.take(i as int));
            assert(s.take(i + 1).last() == s[i as int]);
            lemma_next_id_exceeds_all(s);
        }
        let id = clips[i].id;
        if id >= best {
            best = id + 1;
        }
        i += 1;
    }
    proof {
        assert(s.take(n as int) =~= s);
    }
    best
}

/// The id the next image clip added to `clips` gets: 0 when the collection
/// is empty, else one more than the largest id present.
pub fn get_new_image_clip_id(clips: &Vec<ImageClip>) -> (r: usize)
    requires
        next_id(image_views(clips@)) <= usize::MAX as int,
    ensures
        r as int == next_id(image_views(clips@)),
{
    let ghost s = image_views(clips@);
    let n = clips.len();
    let mut best: usize = 0;
    let mut i: usize = 0;
    while i < n
        invariant
            i <= n,
            n == clips.len(),
            s == image_views(clips@),
            next_id(s) <= usize::MAX as int,
            best as int == next_id(s.take(i as int)),
        decreases n - i,
    {
        proof {
            assert(s[i as int] == clips@[i as int]@);
            assert(s.take(i + 1).drop_last() =~= s.take(i as int));
            assert(s.take(i + 1).last() == s[i as int]);
            lemma_next_id_exceeds_all(s);
        }
        let id = clips[i].id;
        if id >= best {
            best = id + 1;
        }
        i += 1;
    }
    proof {
        assert(s.take(n as int) =~= s);
    }
    best
}

pub proof fn lemma_next_id_exceeds_all(s: Seq<ClipView>)
    ensures
        forall|i: int| 0 <= i < s.len() ==> s[i].id < next_id(s),
        next_id(s) >= 0,
    decreases s.len(),
{
    if s.len() > 0 {
        lemma_next_id_exceeds_all(s.drop_last());
        assert forall|i: int| 0 <= i < s.len() implies s[i].id < next_id(s) by {
            if i < s.len() - 1 {
                assert(s.drop_last()[i] == s[i]);
            }
        }
    }
}

/// Ids are never reused: every add allocates an id one above the previous
/// allocation, the first allocation on an empty collection is 0, and the new
/// id differs from (indeed exceeds) every id already present, so uniqueness
/// is preserved.
pub proof fn lemma_add_allocates_fresh_ids(s: Seq<ClipView>, name: Seq<char>, content: Seq<char>)
    ensures
        next_id(add_seq(s, name, content)) == next_id(s) + 1,
        s.len() == 0 ==> next_id(s) == 0,
        forall|i: int| 0 <= i < s.len() ==> s[i].id < next_id(s),
        unique_ids(s) ==> unique_ids(add_seq(s, name, content)),
        ids_nonneg(s) ==> ids_nonneg(add_seq(s, name, content)),
{
    lemma_next_id_exceeds_all(s);
    let t = add_seq(s, name, content);
    assert(t.drop_last() =~= s);
    assert(t.last().id == next_id(s));
    assert(forall|i: int| 0 <= i < s.len() ==> t[i] == s[i]);
}

/// Across any two consecutive adds the allocated ids strictly increase, the
/// first id on an empty collection is 0, and uniqueness of ids is kept.
pub proof fn lemma_add_ids_strictly_increase(
    s: Seq<ClipView>,
    n1: Seq<char>,
    t1: Seq<char>,
    n2: Seq<char>,
    t2: Seq<char>,
)
    ensures
        s.len() == 0 ==> add_seq(s, n1, t1).last().id == 0,
        add_seq(add_seq(s, n1, t1), n2, t2).last().id == add_seq(s, n1, t1).last().id + 1,
        unique_ids(s) ==> unique_ids(add_seq(add_seq(s, n1, t1), n2, t2)),
{
    lemma_add_allocates_fresh_ids(s, n1, t1);
    lemma_add_allocates_fresh_ids(add_seq(s, n1, t1), n2, t2);
}

/// Every element of `s.filter(p)` satisfies `p` and occurs in `s`, and
/// filtering keeps ids unique and non-negative.
pub proof fn lemma_filter_preserves_wf(s: Seq<ClipView>, p: spec_fn(ClipView) -> bool)
    ensures
        forall|i: int| 0 <= i < s.filter(p).len() ==> p(#[trigger] s.filter(p)[i]),
        forall|x: ClipView| s.filter(p).contains(x) ==> s.contains(x),
        unique_ids(s) ==> unique_ids(s.filter(p)),
        ids_nonneg(s) ==> ids_nonneg(s.filter(p)),
    decreases s.len(),
{
    reveal(Seq::filter);
    if s.len() == 0 {
    } else {
        let u = s.drop_last();
        let t = s.filter(p);
        lemma_filter_preserves_wf(u, p);
        assert(forall|i: int| 0 <= i < u.len() ==> u[i] == s[i]);
        assert forall|x: ClipView| t.contains(x) implies s.contains(x) by {
            if u.filter(p).contains(x) {
                assert(u.contains(x));
                let j = choose|j: int| 0 <= j < u.len() && u[j] == x;
                assert(s[j] == x);
            } else {
                assert(x == s.last());
                assert(s[s.len() - 1] == x);
            }
        }
        if unique_ids(s) {
            assert(unique_ids(u));
            assert forall|i: int, j: int| 0 <= i < j < t.len() implies t[i].id != t[j].id by {
                if p(s.last()) && j == t.len() - 1 {
                    assert(t[j] == s.last());
                    assert(u.filter(p)[i] == t[i]);
                    assert(u.filter(p).contains(t[i]));
                    assert(u.contains(t[i]));
                    let k = choose|k: int| 0 <= k < u.len() && u[k] == t[i];
                    assert(s[k] == t[i]);
                    assert(s[k].id != s.last().id);
                } else {
                    assert(t[i] == u.filter(p)[i]);
                    assert(t[j] == u.filter(p)[j]);
                }
            }
        }
        if ids_nonneg(s) {
            assert forall|i: int| 0 <= i < t.len() implies t[i].id >= 0 by {
                if p(s.last()) && i == t.len() - 1 {
                    assert(t[i] == s.last());
                } else {
                    assert(t[i] == u.filter(p)[i]);
                }
            }
        }
    }
}

proof fn lemma_filter_all_pass(s: Seq<ClipView>, p: spec_fn(ClipView) -> bool)
    requires
        forall|i: int| 0 <= i < s.len() ==> p(s[i]),
    ensures
        s.filter(p) =~= s,
    decreases s.len(),
{
    reveal(Seq::filter);
    if s.len() > 0 {
        let u = s.drop_last();
        assert(forall|i: int| 0 <= i < u.len() ==> u[i] == s[i]);
        lemma_filter_all_pass(u, p);
        assert(p(s.last()));
        assert(s.filter(p) =~= u.filter(p).push(s.last()));
    }
}

/// Deleting an id twice is the same as deleting it once: after the first
/// delete no clip with that id is left, so the second pass keeps everything.
pub proof fn lemma_delete_idempotent(s: Seq<ClipView>, id: int)
    ensures
        delete_seq(delete_seq(s, id), id) =~= delete_seq(s, id),
{
    let p = |c: ClipView| c.id != id;
    lemma_filter_preserves_wf(s, p);
    lemma_filter_all_pass(s.filter(p), p);
}

/// Editing an id that no clip has leaves the collection unchanged.
pub proof fn lemma_edit_missing_is_noop(s: Seq<ClipView>, id: int, name: Seq<char>, content: Seq<char>)
    requires
        forall|i: int| 0 <= i < s.len() ==> s[i].id != id,
    ensures
        edit_seq(s, id, name, content) =~= s,
{
}

/// Deleting an id that no clip has leaves the collection unchanged.
pub proof fn lemma_delete_missing_is_noop(s: Seq<ClipView>, id: int)
    requires
        forall|i: int| 0 <= i < s.len() ==> s[i].id != id,
    ensures
        delete_seq(s, id) =~= s,
{
    lemma_filter_all_pass(s, |c: ClipView| c.id != id);
}

/// Editing keeps every id in place, so it preserves the invariant.
pub proof fn lemma_edit_preserves_wf(s: Seq<ClipView>, id: int, name: Seq<char>, content: Seq<char>)
    ensures
        edit_seq(s, id, name, content).len() == s.len(),
        forall|i: int| 0 <= i < s.len() ==> edit_seq(s, id, name, content)[i].id == s[i].id,
        unique_ids(s) ==> unique_ids(edit_seq(s, id, name, content)),
        ids_nonneg(s) ==> ids_nonneg(edit_seq(s, id, name, content)),
{
}

impl Clipboard {
    /// An empty clipboard, the state persisted on first run.
    pub fn new() -> (r: Clipboard)
        ensures
            r@.text_clips =~= Seq::<ClipView>::empty(),
            r@.image_clips =~= Seq::<ClipView>::empty(),
            r@.wf(),
    {
        Clipboard { text_clips: Vec::new(), image_clips: Vec::new() }
    }

    /// Allocates the next text id, appends the new clip, and returns a copy
    /// of it. The caller is responsible for persisting.
    pub fn add_text(&mut self, name: String, text: String) -> (r: TextClip)
        requires
            next_id(old(self)@.text_clips) <= usize::MAX as int,
        ensures
            r@ == (ClipView { id: next_id(old(self)@.text_clips), name: name@, content: text@ }),
            final(self)@.text_clips =~= add_seq(old(self)@.text_clips, name@, text@),
            final(self)@.image_clips == old(self)@.image_clips,
            old(self)@.wf() ==> final(self)@.wf(),
    {
        proof {
            lemma_add_allocates_fresh_ids(self@.text_clips, name@, text@);
        }
        let id = get_new_text_clip_id(&self.text_clips);
        let clip = TextClip::new(id, name, text);
        let r = clip.duplicate();
        self.text_clips.push(clip);
        proof {
            assert(text_views(self.text_clips@) =~= add_seq(old(self)@.text_clips, r@.name, r@.content));
        }
        r
    }

    /// Allocates the next image id, appends the new clip, and returns a copy
    /// of it. The caller is responsible for persisting.
    pub fn add_image(&mut self, name: String, path: String) -> (r: ImageClip)
        requires
            next_id(old(self)@.image_clips) <= usize::MAX as int,
        ensures
            r@ == (ClipView { id: next_id(old(self)@.image_clips), name: name@, content: path@ }),
            final(self)@.image_clips =~= add_seq(old(self)@.image_clips, name@, path@),
            final(self)@.text_clips == old(self)@.text_clips,
            old(self)@.wf() ==> final(self)@.wf(),
    {
        proof {
            lemma_add_allocates_fresh_ids(self@.image_clips, name@, path@);
        }
        let id = get_new_image_clip_id(&self.image_clips);
        let clip = ImageClip::new(id, name, path);
        let r = clip.duplicate();
        self.image_clips.push(clip);
        proof {
            assert(image_views(self.image_clips@) =~= add_seq(old(self)@.image_clips, r@.name, r@.content));
        }
        r
    }

    /// Overwrites name and text of the text clip with the given id; a silent
    /// no-op when no such clip exists.
    pub fn edit_text(&mut self, id: usize, name: &str, text: &str)
        ensures
            final(self)@.text_clips =~= edit_seq(old(self)@.text_clips, id as int, name@, text@),
            final(self)@.image_clips == old(self)@.image_clips,
            old(self)@.wf() ==> final(self)@.wf(),
    {
        proof {
            lemma_edit_preserves_wf(self@.text_clips, id as int, name@, text@);
        }
        let ghost tv = text_views(self.text_clips@);
        let n = self.text_clips.len();
        let mut out: Vec<TextClip> = Vec::new();
        let mut i: usize = 0;
        while i < n
            invariant
                i <= n,
                n == self.text_clips.len(),
                *self == *old(self),
                tv == text_views(self.text_clips@),
                text_views(out@) =~= edit_seq(tv.take(i as int), id as int, name@, text@),
            decreases n - i,
        {
            proof {
                assert(tv[i as int] == self.text_clips@[i as int]@);
            }
            let c = &self.text_clips[i];
            let newc = if c.id == id {
                TextClip { id: c.id, name: String::from_str(name), text: String::from_str(text) }
            } else {
                c.duplicate()
            };
            let ghost newv = newc@;
            let ghost prev = out@;
            out.push(newc);
            proof {
                assert(tv.len() == n);
                assert(text_views(prev).len() == prev.len());
                assert(tv.take(i as int).len() == i as int);
                assert(prev.len() == i);
                assert(out@ =~= prev.push(out@.last()));
                assert(out@.last()@ == newv);
                let t = edit_seq(tv.take(i + 1), id as int, name@, text@);
                assert forall|j: int| 0 <= j < i + 1 implies text_views(out@)[j] == t[j] by {
                    assert(tv.take(i + 1)[j] == tv[j]);
                    if j < i {
                        assert(out@[j] == prev[j]);
                        assert(text_views(prev)[j] == edit_seq(tv.take(i as int), id as int, name@, text@)[j]);
                        assert(tv.take(i as int)[j] == tv[j]);
                    } else {
                        assert(text_views(out@)[j] == newv);
                    }
                }
                assert(text_views(out@) =~= t);
            }
            i += 1;
        }
        proof {
            assert(tv.take(n as int) =~= tv);
        }
        self.text_clips = out;
    }

    /// Overwrites name and path of the image clip with the given id; a silent
    /// no-op when no such clip exists.
    pub fn edit_image(&mut self, id: usize, name: &str, path: &str)
        ensures
            final(self)@.image_clips =~= edit_seq(old(self)@.image_clips, id as int, name@, path@),
            final(self)@.text_clips == old(self)@.text_clips,
            old(self)@.wf() ==> final(self)@.wf(),
    {
        proof {
            lemma_edit_preserves_wf(self@.image_clips, id as int, name@, path@);
        }
        let ghost iv = image_views(self.image_clips@);
        let n = self.image_clips.len();
        let mut out: Vec<ImageClip> = Vec::new();
        let mut i: usize = 0;
        while i < n
            invariant
                i <= n,
                n == self.image_clips.len(),
                *self == *old(self),
                iv == image_views(self.image_clips@),
                image_views(out@) =~= edit_seq(iv.take(i as int), id as int, name@, path@),
            decreases n - i,
        {
            proof {
                assert(iv[i as int] == self.image_clips@[i as int]@);
            }
            let c = &self.image_clips[i];
            let newc = if c.id == id {
                ImageClip { id: c.id, name: String::from_str(name), path: String::from_str(path) }
            } else {
                c.duplicate()
            };
            let ghost newv = newc@;
            let ghost prev = out@;
            out.push(newc);
            proof {
                assert(iv.len() == n);
                assert(image_views(prev).len() == prev.len());
                assert(iv.take(i as int).len() == i as int);
                assert(prev.len() == i);
                assert(out@ =~= prev.push(out@.last()));
                assert(out@.last()@ == newv);
                let t = edit_seq(iv.take(i + 1), id as int, name@, path@);
                assert forall|j: int| 0 <= j < i + 1 implies image_views(out@)[j] == t[j] by {
                    assert(iv.take(i + 1)[j] == iv[j]);
                    if j < i {
                        assert(out@[j] == prev[j]);
                        assert(image_views(prev)[j] == edit_seq(iv.take(i as int), id as int, name@, path@)[j]);
                        assert(iv.take(i as int)[j] == iv[j]);
                    } else {
                        assert(image_views(out@)[j] == newv);
                    }
                }
                assert(image_views(out@) =~= t);
            }
            i += 1;
        }
        proof {
            assert(iv.take(n as int) =~= iv);
        }
        self.image_clips = out;
    }

    /// Removes the text clip with the given id; a silent no-op when no such
    /// clip exists, which makes repeated deletes idempotent.
    pub fn delete_text(&mut self, id: usize)
        ensures
            final(self)@.text_clips =~= delete_seq(old(self)@.text_clips, id as int),
            final(self)@.image_clips == old(self)@.image_clips,
            old(self)@.wf() ==> final(self)@.wf(),
    {
        proof {
            lemma_filter_preserves_wf(self@.text_clips, |c: ClipView| c.id != id as int);
        }
        let ghost tv = text_views(self.text_clips@);
        let n = self.text_clips.len();
        let mut out: Vec<TextClip> = Vec::new();
        let mut i: usize = 0;
        while i < n
            invariant
                i <= n,
                n == self.text_clips.len(),
                *self == *old(self),
                tv == text_views(self.text_clips@),
                text_views(out@) =~= delete_seq(tv.take(i as int), id as int),
            decreases n - i,
        {
            proof {
                reveal(Seq::filter);
                assert(tv[i as int] == self.text_clips@[i as int]@);
                assert(tv.take(i + 1).drop_last() =~= tv.take(i as int));
                assert(tv.take(i + 1).last() == tv[i as int]);
            }
            let c = &self.text_clips[i];
            if c.id != id {
                out.push(c.duplicate());
            }
            proof {
                assert(text_views(out@) =~= delete_seq(tv.take(i + 1), id as int));
            }
            i += 1;
        }
        proof {
            assert(tv.take(n as int) =~= tv);
        }
        self.text_clips = out;
    }

    /// Removes the image clip with the given id; a silent no-op when no such
    /// clip exists, which makes repeated deletes idempotent.
    pub fn delete_image(&mut self, id: usize)
        ensures
            final(self)@.image_clips =~= delete_seq(old(self)@.image_clips, id as int),
            final(self)@.text_clips == old(self)@.text_clips,
            old(self)@.wf() ==> final(self)@.wf(),
    {
        proof {
            lemma_filter_preserves_wf(self@.image_clips, |c: ClipView| c.id != id as int);
        }
        let ghost iv = image_views(self.image_clips@);
        let n = self.image_clips.len();
        let mut out: Vec<ImageClip> = Vec::new();
        let mut i: usize = 0;
        while i < n
            invariant
                i <= n,
                n == self.image_clips.len(),
                *self == *old(self),
                iv == image_views(self.image_clips@),
                image_views(out@) =~= delete_seq(iv.take(i as int), id as int),
            decreases n - i,
        {
            proof {
                reveal(Seq::filter);
                assert(iv[i as int] == self.image_clips@[i as int]@);
                assert(iv.take(i + 1).drop_last() =~= iv.take(i as int));
                assert(iv.take(i + 1).last() == iv[i as int]);
            }
            let c = &self.image_clips[i];
            if c.id != id {
                out.push(c.duplicate());
            }
            proof {
                assert(image_views(out@) =~= delete_seq(iv.take(i + 1), id as int));
            }
            i += 1;
        }
        proof {
            assert(iv.take(n as int) =~= iv);
        }
        self.image_clips = out;
    }

    /// The stored path of the image clip with the given id, or `None` when no
    /// image clip has that id.
    pub fn find_image_path(&self, id: usize) -> (r: Option<String>)
        ensures
            match r {
                Some(p) => exists|i: int|
                    0 <= i < self@.image_clips.len() && self@.image_clips[i].id == id as int
                        && p@ == self@.image_clips[i].content,
                None => forall|i: int|
                    0 <= i < self@.image_clips.len() ==> self@.image_clips[i].id != id as int,
            },
    {
        let n = self.image_clips.len();
        let mut i: usize = 0;
        while i < n
            invariant
                i <= n,
                n == self.image_clips.len(),
                forall|j: int| 0 <= j < i ==> self@.image_clips[j].id != id as int,
            decreases n - i,
        {
            proof {
                assert(self@.image_clips[i as int] == self.image_clips@[i as int]@);
            }
            let c = &self.image_clips[i];
            if c.id == id {
                return Some(c.path.clone());
            }
            i += 1;
        }
        None
    }
}

} // verus!
