use cedict_lookup::clipboard::{
    clipboard_image, clipboard_signature, image_signature, observe_clipboard, recognized_text, to_lower_hex,
    ClipboardContent, ClipboardStep, OcrModelPaths,
};
use std::path::PathBuf;

#[test]
fn image_signature_is_the_lowercase_md5_hex_digest() {
    assert_eq!(image_signature(b""), "d41d8cd98f00b204e9800998ecf8427e");
    assert_eq!(image_signature(b"abc"), "900150983cd24fb0d6963f7d28e17f72");
    assert_eq!(image_signature(&[0u8, 0, 0, 255]).len(), 32);
}

#[test]
fn lower_hex_writes_two_digits_per_byte() {
    assert_eq!(to_lower_hex(&[]), "");
    assert_eq!(to_lower_hex(&[0x0a, 0xff, 0x00, 0x9c]), "0aff009c");
}

#[test]
fn new_text_is_searched_once() {
    let mut last = String::new();
    let text = ClipboardContent::Text("hello".to_string());
    match observe_clipboard(&mut last, &text) {
        ClipboardStep::Search(t) => assert_eq!(t, "hello"),
        other => panic!("unexpected {other:?}"),
    }
    assert_eq!(last, "hello");
    assert!(matches!(observe_clipboard(&mut last, &text), ClipboardStep::Ignore));
    assert_eq!(last, "hello");
}

#[test]
fn empty_text_is_remembered_but_not_searched() {
    let mut last = "before".to_string();
    let empty = ClipboardContent::Text(String::new());
    assert!(matches!(observe_clipboard(&mut last, &empty), ClipboardStep::Ignore));
    assert_eq!(last, "");
}

#[test]
fn unreadable_clipboard_changes_nothing() {
    let mut last = "before".to_string();
    assert!(matches!(
        observe_clipboard(&mut last, &ClipboardContent::Unavailable),
        ClipboardStep::Ignore
    ));
    assert_eq!(last, "before");
}

#[test]
fn new_image_is_recognized_once() {
    let mut last = "text".to_string();
    let image = ClipboardContent::Image { width: 1, height: 1, pixels: vec![1, 2, 3, 4] };
    assert!(matches!(observe_clipboard(&mut last, &image), ClipboardStep::Recognize));
    assert_eq!(last, image_signature(&[1, 2, 3, 4]));
    assert!(matches!(observe_clipboard(&mut last, &image), ClipboardStep::Ignore));
    let other = ClipboardContent::Image { width: 1, height: 1, pixels: vec![1, 2, 3, 5] };
    assert!(matches!(observe_clipboard(&mut last, &other), ClipboardStep::Recognize));
}

#[test]
fn content_present_at_start_is_not_searched() {
    for content in [
        ClipboardContent::Text("copied before".to_string()),
        ClipboardContent::Image { width: 1, height: 1, pixels: vec![9, 9, 9, 9] },
        ClipboardContent::Unavailable,
    ] {
        let mut last = clipboard_signature(&content);
        assert!(matches!(observe_clipboard(&mut last, &content), ClipboardStep::Ignore));
    }
}

#[test]
fn clipboard_signature_of_each_content() {
    assert_eq!(clipboard_signature(&ClipboardContent::Text("abc".to_string())), "abc");
    assert_eq!(
        clipboard_signature(&ClipboardContent::Image { width: 0, height: 0, pixels: b"abc".to_vec() }),
        "900150983cd24fb0d6963f7d28e17f72"
    );
    assert_eq!(clipboard_signature(&ClipboardContent::Unavailable), "");
}

#[test]
fn recognized_fragments_are_joined_by_spaces() {
    assert_eq!(recognized_text(&vec![]), None);
    assert_eq!(recognized_text(&vec![String::new()]), None);
    assert_eq!(recognized_text(&vec!["你好".to_string()]), Some("你好".to_string()));
    assert_eq!(
        recognized_text(&vec!["你好".to_string(), "世界".to_string()]),
        Some("你好 世界".to_string())
    );
    assert_eq!(recognized_text(&vec![String::new(), String::new()]), Some(" ".to_string()));
}

#[test]
fn model_paths_clone_keeps_the_paths() {
    let paths = OcrModelPaths {
        detection: PathBuf::from("det.mnn"),
        recognition: PathBuf::from("rec.mnn"),
        charset: PathBuf::from("keys.txt"),
    };
    let copy = paths.clone();
    assert_eq!(copy.detection, PathBuf::from("det.mnn"));
    assert_eq!(copy.recognition, PathBuf::from("rec.mnn"));
    assert_eq!(copy.charset, PathBuf::from("keys.txt"));
}

#[test]
fn only_images_that_fill_their_size_are_decoded() {
    let fits = ClipboardContent::Image { width: 2, height: 1, pixels: vec![0; 8] };
    let image = clipboard_image(fits).unwrap();
    assert_eq!((image.buffer.rgba.width(), image.buffer.rgba.height()), (2, 1));
    assert_eq!((image.width, image.height), (2, 1));
    assert_eq!(image.buffer.rgba.into_raw(), vec![0; 8]);
    let larger = ClipboardContent::Image { width: 1, height: 1, pixels: vec![0; 5] };
    assert!(clipboard_image(larger).is_some());
    let short = ClipboardContent::Image { width: 2, height: 2, pixels: vec![0; 15] };
    assert!(clipboard_image(short).is_none());
    assert!(clipboard_image(ClipboardContent::Text("x".to_string())).is_none());
    assert!(clipboard_image(ClipboardContent::Unavailable).is_none());
}

#[test]
fn an_undecodable_image_is_still_remembered() {
    let mut last = String::new();
    let short = ClipboardContent::Image { width: 4, height: 4, pixels: vec![7; 3] };
    assert!(matches!(observe_clipboard(&mut last, &short), ClipboardStep::Recognize));
    assert_eq!(last, image_signature(&[7, 7, 7]));
    assert!(clipboard_image(short.clone()).is_none());
    assert!(matches!(observe_clipboard(&mut last, &short), ClipboardStep::Ignore));
}
