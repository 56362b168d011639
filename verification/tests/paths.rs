use dpcs::paths::{encode_path_key, is_safe_path_segment, is_safe_relative, registry_content_relative_path};

#[test]
fn encode_path_key_is_case_sensitive() {
    assert_ne!(encode_path_key("Demo", "0.1.0"), encode_path_key("demo", "0.1.0"));
    assert_ne!(
        registry_content_relative_path("Demo", "0.1.0"),
        registry_content_relative_path("demo", "0.1.0")
    );
}

#[test]
fn path_keys_are_hex_of_utf8() {
    assert_eq!(encode_path_key("Ab", "1"), "4162-31");
    assert_eq!(registry_content_relative_path("a", "1.0"), "artifacts/61-312e30.yaml");
    assert_eq!(encode_path_key("é", ""), "c3a9-");
}

#[test]
fn safe_paths_and_segments() {
    assert!(is_safe_relative("a/b.yaml"));
    assert!(!is_safe_relative("a/../b"));
    assert!(!is_safe_relative("/abs"));
    assert!(!is_safe_relative(""));
    assert!(is_safe_path_segment("1.2.3+build"));
    assert!(!is_safe_path_segment("a/b"));
    assert!(!is_safe_path_segment(""));
}

#[test]
fn dot_segments_are_not_safe() {
    assert!(is_safe_path_segment("demo_v-1"));
    assert!(is_safe_path_segment("..."));
    assert!(is_safe_path_segment(".hidden"));
    assert!(!is_safe_path_segment("."));
    assert!(!is_safe_path_segment(".."));
}

#[test]
fn safe_relative_examples_and_path_key_format() {
    assert!(is_safe_relative("a/./b"));
    assert!(!is_safe_relative("a\0b"));
    assert!(!is_safe_relative("/x"));
    assert_eq!(encode_path_key("Demo", "0.1.0"), "44656d6f-302e312e30");
    assert_ne!(encode_path_key("Demo", "0.1.0"), encode_path_key("demo", "0.1.0"));
}
