use clip_registry::clips::{Clipboard, ImageClip, TextClip};
use clip_registry::codec::{decode, encode, get_clipboard_path};

fn sample() -> Clipboard {
    Clipboard {
        text_clips: vec![
            TextClip { id: 0, name: "Snippet A".to_string(), text: "hello".to_string() },
            TextClip { id: 3, name: "Grüße".to_string(), text: "日本語テキスト".to_string() },
            TextClip { id: 4, name: "".to_string(), text: "".to_string() },
        ],
        image_clips: vec![
            ImageClip { id: 0, name: "shot".to_string(), path: "/home/u/p i c.png".to_string() },
            ImageClip {
                id: 9,
                name: "win path".to_string(),
                path: "C:\\Users\\u\\pic.png".to_string(),
            },
        ],
    }
}

#[test]
fn round_trip_is_identity() {
    let cb = sample();
    let bytes = encode(&cb);
    let back = decode(&bytes).expect("a fresh encoding must decode");
    assert_eq!(back.text_clips.len(), cb.text_clips.len());
    assert_eq!(back.image_clips.len(), cb.image_clips.len());
    for (a, b) in cb.text_clips.iter().zip(back.text_clips.iter()) {
        assert_eq!(a.id, b.id);
        assert_eq!(a.name, b.name);
        assert_eq!(a.text, b.text);
    }
    for (a, b) in cb.image_clips.iter().zip(back.image_clips.iter()) {
        assert_eq!(a.id, b.id);
        assert_eq!(a.name, b.name);
        assert_eq!(a.path, b.path);
    }
}

#[test]
fn round_trip_of_empty_clipboard() {
    let cb = Clipboard::new();
    let bytes = encode(&cb);
    let back = decode(&bytes).expect("empty clipboard must decode");
    assert!(back.text_clips.is_empty());
    assert!(back.image_clips.is_empty());
}

#[test]
fn save_of_load_is_a_fixed_point() {
    let bytes = encode(&sample());
    let loaded = decode(&bytes).unwrap();
    let rewritten = encode(&loaded);
    assert_eq!(bytes, rewritten);
}

#[test]
fn encoding_layout_is_counts_ids_and_length_prefixed_utf8() {
    // An empty clipboard is two zero counts.
    assert_eq!(encode(&Clipboard::new()), vec![0u8; 16]);
    // One text clip: count 1, id 2, then "A" and "b" length-prefixed.
    let cb = Clipboard {
        text_clips: vec![TextClip { id: 2, name: "A".to_string(), text: "b".to_string() }],
        image_clips: vec![],
    };
    let mut expected = Vec::new();
    expected.extend_from_slice(&1u64.to_le_bytes());
    expected.extend_from_slice(&2u64.to_le_bytes());
    expected.extend_from_slice(&1u64.to_le_bytes());
    expected.push(b'A');
    expected.extend_from_slice(&1u64.to_le_bytes());
    expected.push(b'b');
    expected.extend_from_slice(&0u64.to_le_bytes());
    assert_eq!(encode(&cb), expected);
}

#[test]
fn corrupt_blobs_are_rejected() {
    assert!(decode(&vec![]).is_none());
    assert!(decode(&vec![1, 2, 3]).is_none());
    // A count that promises more clips than the blob holds.
    let mut bytes = vec![0u8; 8];
    bytes[0] = 200;
    assert!(decode(&bytes).is_none());
    // Trailing garbage after a valid encoding.
    let mut ok = encode(&sample());
    ok.push(0);
    assert!(decode(&ok).is_none());
    // The first name length raised far beyond the blob's end.
    let mut bad = encode(&sample());
    bad[23] = 255;
    assert!(decode(&bad).is_none());
}

#[test]
fn clipboard_path_is_under_the_data_dir() {
    assert_eq!(get_clipboard_path("/home/u/.local/share/wl-clipboard"), "/home/u/.local/share/wl-clipboard/clipboard.bin");
}
