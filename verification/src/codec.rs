//! The persistence codec: the clipboard aggregate as one self-contained byte
//! blob. Every integer is eight little-endian bytes; every string is its
//! byte length followed by its UTF-8 bytes; the blob is the text clip count
//! and clips, then the image clip count and clips, with nothing after them.
//! Decoding accepts exactly the encodings and inverts them.

use vstd::prelude::*;

verus! {

use vstd::bytes::{spec_u64_to_le_bytes, spec_u64_from_le_bytes, lemma_auto_spec_u64_to_from_le_bytes, u64_to_le_bytes, u64_from_le_bytes};
use vstd::utf8::{encode_utf8, decode_utf8, valid_utf8, encode_utf8_decode_utf8, encode_utf8_valid_utf8};
use vstd::string::*;
use vstd::slice::{slice_subrange, slice_to_vec};
use crate::clips::{Clipboard, ClipView, ClipboardView, TextClip, ImageClip, text_views, image_views};

/// Where the blob lives under the application-data directory the host
/// resolves: `<dir>/clipboard.bin`.
pub fn get_clipboard_path(dir: &str) -> (r: String)
    ensures
        r@ == dir@ + "/"@ + "clipboard.bin"@,
{
    String::from_str(dir).concat("/").concat("clipboard.bin")
}

/// Relies on `String::from_utf8`: it succeeds exactly on valid UTF-8 input
/// and returns the string those bytes spell.
#[verifier::external_body]
fn bytes_to_string(v: Vec<u8>) -> (r: Option<String>)
    ensures
        r is Some <==> valid_utf8(v@),
        r matches Some(s) ==> s@ == decode_utf8(v@),
{
    match String::from_utf8(v) {
        Ok(s) => Some(s),
        Err(_) => None,
    }
}

pub open spec fn enc_u64(n: int) -> Seq<u8> {
    spec_u64_to_le_bytes(n as u64)
}

pub open spec fn enc_str(s: Seq<char>) -> Seq<u8> {
    enc_u64(encode_utf8(s).len() as int) + encode_utf8(s)
}

pub open spec fn enc_clip(c: ClipView) -> Seq<u8> {
    enc_u64(c.id) + enc_str(c.name) + enc_str(c.content)
}

pub open spec fn enc_clips(s: Seq<ClipView>) -> Seq<u8>
    decreases s.len(),
{
    if s.len() == 0 {
        Seq::empty()
    } else {
        enc_clip(s.first()) + enc_clips(s.drop_first())
    }
}

/// The persisted form of a clipboard.
pub open spec fn spec_encode(cv: ClipboardView) -> Seq<u8> {
    enc_u64(cv.text_clips.len() as int) + enc_clips(cv.text_clips) + enc_u64(
        cv.image_clips.len() as int,
    ) + enc_clips(cv.image_clips)
}

/// The sizes any clipboard held in memory respects; the encoding is only
/// canonical under them.
pub open spec fn str_bounded(s: Seq<char>) -> bool {
    encode_utf8(s).len() <= usize::MAX
}

pub open spec fn clip_bounded(c: ClipView) -> bool {
    &&& 0 <= c.id <= usize::MAX
    &&& str_bounded(c.name)
    &&& str_bounded(c.content)
}

pub open spec fn clips_bounded(s: Seq<ClipView>) -> bool {
    &&& s.len() <= usize::MAX
    &&& forall|i: int| 0 <= i < s.len() ==> clip_bounded(#[trigger] s[i])
}

pub open spec fn bounded(cv: ClipboardView) -> bool {
    clips_bounded(cv.text_clips) && clips_bounded(cv.image_clips)
}

/// An integer read at `pos`: the value and the position after it.
pub open spec fn dec_u64(b: Seq<u8>, pos: int) -> Option<(int, int)> {
    if 0 <= pos && pos + 8 <= b.len() {
        Some((spec_u64_from_le_bytes(b.subrange(pos, pos + 8)) as int, pos + 8))
    } else {
        None
    }
}

/// A string read at `pos`: its length, then that many bytes of UTF-8.
pub open spec fn dec_str(b: Seq<u8>, pos: int) -> Option<(Seq<char>, int)> {
    match dec_u64(b, pos) {
        None => None,
        Some((len, p1)) => if len <= usize::MAX && p1 + len <= b.len() {
            if valid_utf8(b.subrange(p1, p1 + len)) {
                Some((decode_utf8(b.subrange(p1, p1 + len)), p1 + len))
            } else {
                None
            }
        } else {
            None
        },
    }
}

/// A clip read at `pos`: id, name, content.
pub open spec fn dec_clip(b: Seq<u8>, pos: int) -> Option<(ClipView, int)> {
    match dec_u64(b, pos) {
        None => None,
        Some((id, p1)) => if id <= usize::MAX {
            match dec_str(b, p1) {
                None => None,
                Some((name, p2)) => match dec_str(b, p2) {
                    None => None,
                    Some((content, p3)) => Some((ClipView { id, name, content }, p3)),
                },
            }
        } else {
            None
        },
    }
}

/// `count` clips read in sequence from `pos`.
pub open spec fn dec_clips(b: Seq<u8>, pos: int, count: nat) -> Option<(Seq<ClipView>, int)>
    decreases count,
{
    if count == 0 {
        Some((Seq::empty(), pos))
    } else {
        match dec_clip(b, pos) {
            None => None,
            Some((c, p1)) => match dec_clips(b, p1, (count - 1) as nat) {
                None => None,
                Some((s, p2)) => Some((seq![c] + s, p2)),
            },
        }
    }
}

/// The clipboard a blob decodes to, if the whole blob is one well-formed
/// encoding with nothing trailing.
pub open spec fn spec_decode(b: Seq<u8>) -> Option<ClipboardView> {
    match dec_u64(b, 0) {
        None => None,
        Some((nt, p1)) => if nt <= usize::MAX {
            match dec_clips(b, p1, nt as nat) {
                None => None,
                Some((ts, p2)) => match dec_u64(b, p2) {
                    None => None,
                    Some((ni, p3)) => if ni <= usize::MAX {
                        match dec_clips(b, p3, ni as nat) {
                            None => None,
                            Some((is, p4)) => if p4 == b.len() {
                                Some(ClipboardView { text_clips: ts, image_clips: is })
                            } else {
                                None
                            },
                        }
                    } else {
                        None
                    },
                },
            }
        } else {
            None
        },
    }
}

proof fn lemma_dec_u64_at(b: Seq<u8>, pos: int, n: int)
    requires
        0 <= n <= u64::MAX,
        0 <= pos,
        pos + 8 <= b.len(),
        b.subrange(pos, pos + 8) =~= enc_u64(n),
    ensures
        dec_u64(b, pos) == Some((n, pos + 8)),
{
    lemma_auto_spec_u64_to_from_le_bytes();
}

proof fn lemma_dec_str_at(b: Seq<u8>, pos: int, s: Seq<char>)
    requires
        str_bounded(s),
        0 <= pos,
        pos + enc_str(s).len() <= b.len(),
        b.subrange(pos, pos + enc_str(s).len()) =~= enc_str(s),
    ensures
        enc_str(s).len() == 8 + encode_utf8(s).len(),
        dec_str(b, pos) == Some((s, pos + enc_str(s).len())),
{
    lemma_auto_spec_u64_to_from_le_bytes();
    let eb = encode_utf8(s);
    let all = enc_str(s);
    assert(all.len() == 8 + eb.len());
    assert(b.subrange(pos, pos + 8) =~= enc_u64(eb.len() as int)) by {
        assert forall|k: int| 0 <= k < 8 implies b.subrange(pos, pos + 8)[k] == enc_u64(
            eb.len() as int,
        )[k] by {
            assert(b.subrange(pos, pos + all.len() as int)[k] == all[k]);
        }
    }
    lemma_dec_u64_at(b, pos, eb.len() as int);
    assert(b.subrange(pos + 8, pos + 8 + eb.len() as int) =~= eb) by {
        assert forall|k: int| 0 <= k < eb.len() implies b.subrange(
            pos + 8,
            pos + 8 + eb.len() as int,
        )[k] == eb[k] by {
            assert(b.subrange(pos, pos + all.len() as int)[8 + k] == all[8 + k]);
        }
    }
    encode_utf8_valid_utf8(s);
    encode_utf8_decode_utf8(s);
}

proof fn lemma_dec_clip_at(b: Seq<u8>, pos: int, c: ClipView)
    requires
        clip_bounded(c),
        0 <= pos,
        pos + enc_clip(c).len() <= b.len(),
        b.subrange(pos, pos + enc_clip(c).len()) =~= enc_clip(c),
    ensures
        dec_clip(b, pos) == Some((c, pos + enc_clip(c).len())),
{
    lemma_auto_spec_u64_to_from_le_bytes();
    let all = enc_clip(c);
    let ln = enc_str(c.name).len() as int;
    let lc = enc_str(c.content).len() as int;
    assert(all.len() == 8 + ln + lc);
    assert(b.subrange(pos, pos + 8) =~= enc_u64(c.id)) by {
        assert forall|k: int| 0 <= k < 8 implies b.subrange(pos, pos + 8)[k] == enc_u64(c.id)[k] by {
            assert(b.subrange(pos, pos + all.len() as int)[k] == all[k]);
        }
    }
    lemma_dec_u64_at(b, pos, c.id);
    assert(b.subrange(pos + 8, pos + 8 + ln) =~= enc_str(c.name)) by {
        assert forall|k: int| 0 <= k < ln implies b.subrange(pos + 8, pos + 8 + ln)[k] == enc_str(
            c.name,
        )[k] by {
            assert(b.subrange(pos, pos + all.len() as int)[8 + k] == all[8 + k]);
        }
    }
    lemma_dec_str_at(b, pos + 8, c.name);
    assert(b.subrange(pos + 8 + ln, pos + 8 + ln + lc) =~= enc_str(c.content)) by {
        assert forall|k: int| 0 <= k < lc implies b.subrange(pos + 8 + ln, pos + 8 + ln + lc)[k]
            == enc_str(c.content)[k] by {
            assert(b.subrange(pos, pos + all.len() as int)[8 + ln + k] == all[8 + ln + k]);
        }
    }
    lemma_dec_str_at(b, pos + 8 + ln, c.content);
}

proof fn lemma_dec_clips_at(b: Seq<u8>, pos: int, s: Seq<ClipView>)
    requires
        clips_bounded(s),
        0 <= pos,
        pos + enc_clips(s).len() <= b.len(),
        b.subrange(pos, pos + enc_clips(s).len()) =~= enc_clips(s),
    ensures
        dec_clips(b, pos, s.len() as nat) == Some((s, pos + enc_clips(s).len())),
    decreases s.len(),
{
    if s.len() == 0 {
        assert(s =~= Seq::<ClipView>::empty());
    } else {
        let c = s.first();
        let rest = s.drop_first();
        let lc = enc_clip(c).len() as int;
        let lr = enc_clips(rest).len() as int;
        assert(enc_clips(s) == enc_clip(c) + enc_clips(rest));
        assert(enc_clips(s).len() == lc + lr);
        assert(clip_bounded(c));
        assert(b.subrange(pos, pos + lc) =~= enc_clip(c)) by {
            assert forall|k: int| 0 <= k < lc implies b.subrange(pos, pos + lc)[k] == enc_clip(
                c,
            )[k] by {
                assert(b.subrange(pos, pos + (lc + lr))[k] == enc_clips(s)[k]);
            }
        }
        lemma_dec_clip_at(b, pos, c);
        assert(clips_bounded(rest)) by {
            assert(forall|i: int| 0 <= i < rest.len() ==> rest[i] == s[i + 1]);
        }
        assert(b.subrange(pos + lc, pos + lc + lr) =~= enc_clips(rest)) by {
            assert forall|k: int| 0 <= k < lr implies b.subrange(pos + lc, pos + lc + lr)[k]
                == enc_clips(rest)[k] by {
                assert(b.subrange(pos, pos + (lc + lr))[lc + k] == enc_clips(s)[lc + k]);
            }
        }
        lemma_dec_clips_at(b, pos + lc, rest);
        assert(seq![c] + rest =~= s);
    }
}

/// Decoding inverts encoding: the persisted blob of any clipboard reads
/// back as that clipboard, field for field.
pub proof fn lemma_codec_round_trip(cv: ClipboardView)
    requires
        bounded(cv),
    ensures
        spec_decode(spec_encode(cv)) == Some(cv),
{
    lemma_auto_spec_u64_to_from_le_bytes();
    let b = spec_encode(cv);
    let lt = enc_clips(cv.text_clips).len() as int;
    let li = enc_clips(cv.image_clips).len() as int;
    assert(b.len() == 8 + lt + 8 + li);
    assert(b.subrange(0, 8) =~= enc_u64(cv.text_clips.len() as int));
    lemma_dec_u64_at(b, 0, cv.text_clips.len() as int);
    assert(b.subrange(8, 8 + lt) =~= enc_clips(cv.text_clips));
    lemma_dec_clips_at(b, 8, cv.text_clips);
    assert(b.subrange(8 + lt, 8 + lt + 8) =~= enc_u64(cv.image_clips.len() as int));
    lemma_dec_u64_at(b, 8 + lt, cv.image_clips.len() as int);
    assert(b.subrange(8 + lt + 8, 8 + lt + 8 + li) =~= enc_clips(cv.image_clips));
    lemma_dec_clips_at(b, 8 + lt + 8, cv.image_clips);
    assert(ClipboardView { text_clips: cv.text_clips, image_clips: cv.image_clips } =~= cv);
}

proof fn lemma_enc_clips_push(s: Seq<ClipView>, c: ClipView)
    ensures
        enc_clips(s.push(c)) =~= enc_clips(s) + enc_clip(c),
    decreases s.len(),
{
    if s.len() == 0 {
        assert(s.push(c).first() == c);
        assert(s.push(c).drop_first() =~= Seq::<ClipView>::empty());
        assert(enc_clips(s.push(c)) == enc_clip(c) + enc_clips(Seq::<ClipView>::empty()));
        assert(enc_clips(Seq::<ClipView>::empty()) =~= Seq::<u8>::empty());
        assert(enc_clips(s) =~= Seq::<u8>::empty());
    } else {
        assert(s.push(c).first() == s.first());
        assert(s.push(c).drop_first() =~= s.drop_first().push(c));
        lemma_enc_clips_push(s.drop_first(), c);
        assert(enc_clips(s.push(c)) == enc_clip(s.first()) + enc_clips(s.drop_first().push(c)));
        assert(enc_clips(s) == enc_clip(s.first()) + enc_clips(s.drop_first()));
    }
}

fn append_u64(out: &mut Vec<u8>, n: usize)
    ensures
        final(out)@ =~= old(out)@ + enc_u64(n as int),
{
    let mut b = u64_to_le_bytes(n as u64);
    out.append(&mut b);
}

fn append_str(out: &mut Vec<u8>, s: &str)
    ensures
        final(out)@ =~= old(out)@ + enc_str(s@),
        str_bounded(s@),
{
    let mut data = s.as_bytes_vec();
    append_u64(out, data.len());
    out.append(&mut data);
}

/// Serializes the clipboard into the one blob that is persisted; the whole
/// file is overwritten with it.
pub fn encode(cb: &Clipboard) -> (r: Vec<u8>)
    ensures
        r@ =~= spec_encode(cb@),
        bounded(cb@),
{
    let ghost tv = text_views(cb.text_clips@);
    let ghost iv = image_views(cb.image_clips@);
    let mut out: Vec<u8> = Vec::new();
    let nt = cb.text_clips.len();
    append_u64(&mut out, nt);
    let mut i: usize = 0;
    while i < nt
        invariant
            i <= nt,
            nt == cb.text_clips.len(),
            tv == text_views(cb.text_clips@),
            out@ =~= enc_u64(nt as int) + enc_clips(tv.take(i as int)),
            forall|j: int| 0 <= j < i ==> clip_bounded(#[trigger] tv[j]),
        decreases nt - i,
    {
        proof {
            assert(tv[i as int] == cb.text_clips@[i as int]@);
        }
        let c = &cb.text_clips[i];
        let ghost before = out@;
        append_u64(&mut out, c.id);
        append_str(&mut out, c.name.as_str());
        append_str(&mut out, c.text.as_str());
        proof {
            assert(out@ =~= before + enc_clip(tv[i as int]));
            lemma_enc_clips_push(tv.take(i as int), tv[i as int]);
            assert(tv.take(i + 1) =~= tv.take(i as int).push(tv[i as int]));
        }
        i += 1;
    }
    proof {
        assert(tv.take(nt as int) =~= tv);
    }
    let ni = cb.image_clips.len();
    append_u64(&mut out, ni);
    let ghost mid = out@;
    let mut k: usize = 0;
    while k < ni
        invariant
            k <= ni,
            ni == cb.image_clips.len(),
            iv == image_views(cb.image_clips@),
            mid == out@.take(mid.len() as int) && out@.len() >= mid.len(),
            out@ =~= mid + enc_clips(iv.take(k as int)),
            forall|j: int| 0 <= j < k ==> clip_bounded(#[trigger] iv[j]),
        decreases ni - k,
    {
        proof {
            assert(iv[k as int] == cb.image_clips@[k as int]@);
        }
        let c = &cb.image_clips[k];
        let ghost before = out@;
        append_u64(&mut out, c.id);
        append_str(&mut out, c.name.as_str());
        append_str(&mut out, c.path.as_str());
        proof {
            assert(out@ =~= before + enc_clip(iv[k as int]));
            lemma_enc_clips_push(iv.take(k as int), iv[k as int]);
            assert(iv.take(k + 1) =~= iv.take(k as int).push(iv[k as int]));
        }
        k += 1;
    }
    proof {
        assert(iv.take(ni as int) =~= iv);
    }
    out
}

fn read_u64(bytes: &Vec<u8>, pos: usize) -> (r: Option<(u64, usize)>)
    ensures
        match r {
            Some(vp) => dec_u64(bytes@, pos as int) == Some((vp.0 as int, vp.1 as int)),
            None => dec_u64(bytes@, pos as int) is None,
        },
{
    if pos > bytes.len() || bytes.len() - pos < 8 {
        return None;
    }
    let s = slice_subrange(bytes.as_slice(), pos, pos + 8);
    let v = u64_from_le_bytes(s);
    Some((v, pos + 8))
}

fn read_string(bytes: &Vec<u8>, pos: usize) -> (r: Option<(String, usize)>)
    ensures
        match r {
            Some(sp) => dec_str(bytes@, pos as int) == Some((sp.0@, sp.1 as int)),
            None => dec_str(bytes@, pos as int) is None,
        },
{
    match read_u64(bytes, pos) {
        None => None,
        Some((len64, p1)) => {
            if len64 > usize::MAX as u64 {
                return None;
            }
            let len = len64 as usize;
            if bytes.len() - p1 < len {
                return None;
            }
            let data = slice_to_vec(slice_subrange(bytes.as_slice(), p1, p1 + len));
            match bytes_to_string(data) {
                None => None,
                Some(s) => Some((s, p1 + len)),
            }
        },
    }
}

fn read_clip(bytes: &Vec<u8>, pos: usize) -> (r: Option<(usize, String, String, usize)>)
    ensures
        match r {
            Some(q) => dec_clip(bytes@, pos as int) == Some(
                ((ClipView { id: q.0 as int, name: q.1@, content: q.2@ }), q.3 as int),
            ),
            None => dec_clip(bytes@, pos as int) is None,
        },
{
    match read_u64(bytes, pos) {
        None => None,
        Some((id64, p1)) => {
            if id64 > usize::MAX as u64 {
                return None;
            }
            let id = id64 as usize;
            match read_string(bytes, p1) {
                None => None,
                Some((name, p2)) => match read_string(bytes, p2) {
                    None => None,
                    Some((content, p3)) => Some((id, name, content, p3)),
                },
            }
        },
    }
}

fn read_text_clips(bytes: &Vec<u8>, pos: usize, count: usize) -> (r: Option<(Vec<TextClip>, usize)>)
    ensures
        match r {
            Some(vp) => dec_clips(bytes@, pos as int, count as nat) == Some(
                (text_views(vp.0@), vp.1 as int),
            ),
            None => dec_clips(bytes@, pos as int, count as nat) is None,
        },
    decreases count,
{
    if count == 0 {
        let v: Vec<TextClip> = Vec::new();
        proof {
            assert(text_views(v@) =~= Seq::<ClipView>::empty());
        }
        return Some((v, pos));
    }
    match read_clip(bytes, pos) {
        None => None,
        Some((id, name, content, p1)) => {
            let ghost cv = ClipView { id: id as int, name: name@, content: content@ };
            match read_text_clips(bytes, p1, count - 1) {
                None => None,
                Some((mut v, p2)) => {
                    let ghost tail = text_views(v@);
                    v.insert(0, TextClip { id, name, text: content });
                    proof {
                        assert(text_views(v@) =~= seq![cv] + tail);
                    }
                    Some((v, p2))
                },
            }
        },
    }
}

fn read_image_clips(bytes: &Vec<u8>, pos: usize, count: usize) -> (r: Option<
    (Vec<ImageClip>, usize),
>)
    ensures
        match r {
            Some(vp) => dec_clips(bytes@, pos as int, count as nat) == Some(
                (image_views(vp.0@), vp.1 as int),
            ),
            None => dec_clips(bytes@, pos as int, count as nat) is None,
        },
    decreases count,
{
    if count == 0 {
        let v: Vec<ImageClip> = Vec::new();
        proof {
            assert(image_views(v@) =~= Seq::<ClipView>::empty());
        }
        return Some((v, pos));
    }
    match read_clip(bytes, pos) {
        None => None,
        Some((id, name, content, p1)) => {
            let ghost cv = ClipView { id: id as int, name: name@, content: content@ };
            match read_image_clips(bytes, p1, count - 1) {
                None => None,
                Some((mut v, p2)) => {
                    let ghost tail = image_views(v@);
                    v.insert(0, ImageClip { id, name, path: content });
                    proof {
                        assert(image_views(v@) =~= seq![cv] + tail);
                    }
                    Some((v, p2))
                },
            }
        },
    }
}

/// Deserializes a persisted blob. Returns the clipboard it encodes, or
/// `None` when the bytes do not decode to the expected schema.
pub fn decode(bytes: &Vec<u8>) -> (r: Option<Clipboard>)
    ensures
        match spec_decode(bytes@) {
            Some(cv) => r matches Some(cb) && cb@ == cv,
            None => r is None,
        },
{
    let (nt64, p1) = match read_u64(bytes, 0) {
        None => {
            return None;
        },
        Some(x) => x,
    };
    if nt64 > usize::MAX as u64 {
        return None;
    }
    let (texts, p2) = match read_text_clips(bytes, p1, nt64 as usize) {
        None => {
            return None;
        },
        Some(x) => x,
    };
    let (ni64, p3) = match read_u64(bytes, p2) {
        None => {
            return None;
        },
        Some(x) => x,
    };
    if ni64 > usize::MAX as u64 {
        return None;
    }
    let (images, p4) = match read_image_clips(bytes, p3, ni64 as usize) {
        None => {
            return None;
        },
        Some(x) => x,
    };
    if p4 != bytes.len() {
        return None;
    }
    let cb = Clipboard { text_clips: texts, image_clips: images };
    proof {
        assert(cb@ =~= spec_decode(bytes@).unwrap());
    }
    Some(cb)
}

} // verus!
