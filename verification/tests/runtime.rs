use styledcamera_core::runtime::{ends_with, runtime_library_name, starts_with};

#[test]
fn runtime_library_goes_by_its_usual_names() {
    assert!(runtime_library_name("libonnxruntime.dylib"));
    assert!(runtime_library_name("libonnxruntime.1.dylib"));
    assert!(runtime_library_name("libonnxruntime.1.23.0.dylib"));
    assert!(runtime_library_name("libonnxruntime_providers_shared.dylib"));
}

#[test]
fn other_files_are_not_the_runtime_library() {
    for name in [
        "",
        "libonnxruntime",
        ".dylib",
        "libonnxruntime.so",
        "libonnxruntime.dylib.bak",
        "onnxruntime.dylib",
        "Libonnxruntime.dylib",
        "libonnxruntime.DYLIB",
        "libonnxruntim.dylib",
        " libonnxruntime.dylib",
        "libonnxruntime.dylib ",
        "libonnxruntime.dyli",
    ] {
        assert!(!runtime_library_name(name), "{:?}", name);
    }
}

#[test]
fn prefix_and_suffix_may_not_overlap_short() {
    // Long enough for either, and each is there, but not for both at once.
    assert!(starts_with("libonnxruntime", "libonnxruntime"));
    assert!(!runtime_library_name("libonnxruntime"));
    assert!(runtime_library_name("libonnxruntime.dylib"));
}

#[test]
fn starts_with_and_ends_with_agree_with_the_standard_library() {
    let texts = ["", "a", "ab", "abc", "abcabc", "\u{e9}t\u{e9}", "t\u{e9}", "\u{1f600}x"];
    for text in texts {
        for part in texts {
            assert_eq!(starts_with(text, part), text.starts_with(part), "{:?} {:?}", text, part);
            assert_eq!(ends_with(text, part), text.ends_with(part), "{:?} {:?}", text, part);
        }
    }
}
