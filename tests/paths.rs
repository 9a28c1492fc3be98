use fade::paths::{frame_file_name, matches_pattern, output_location, sidecar_file_name};

fn location(s: &str) -> (String, String) {
    output_location(s)
}

#[test]
fn default_output_has_no_directory() {
    assert_eq!(location("output.gif"), ("output.gif".to_string(), "".to_string()));
    assert_eq!(location("anim.gif"), ("anim.gif".to_string(), "".to_string()));
}

#[test]
fn output_in_a_directory() {
    assert_eq!(location("out/anim.gif"), ("out/anim.gif".to_string(), "out/".to_string()));
    assert_eq!(location("a/b/c.gif"), ("a/b/c.gif".to_string(), "a/b/".to_string()));
    assert_eq!(location("/abs.gif"), ("/abs.gif".to_string(), "/".to_string()));
}

#[test]
fn output_naming_a_directory() {
    assert_eq!(location("frames/"), ("frames/output.gif".to_string(), "frames/".to_string()));
    assert_eq!(location("/"), ("/output.gif".to_string(), "/".to_string()));
}

#[test]
fn backslashes_become_slashes() {
    assert_eq!(location("out\\sub\\a.gif"), ("out/sub/a.gif".to_string(), "out/sub/".to_string()));
    assert_eq!(location("out\\"), ("out/output.gif".to_string(), "out/".to_string()));
    assert_eq!(location("dé\\ü.gif"), ("dé/ü.gif".to_string(), "dé/".to_string()));
}

#[test]
fn empty_output() {
    assert_eq!(location(""), ("".to_string(), "".to_string()));
}

#[test]
fn companion_file_names() {
    assert_eq!(frame_file_name("out/", 7), "out/0007.png");
    assert_eq!(frame_file_name("", 12345), "12345.png");
    assert_eq!(sidecar_file_name("out/"), "out/animation.json");
    assert_eq!(sidecar_file_name(""), "animation.json");
}

#[test]
fn pattern_takes_names_ending_with_its_text() {
    assert!(matches_pattern("a.png", "*.png"));
    assert!(matches_pattern(".png", "*.png"));
    assert!(!matches_pattern("a.jpg", "*.png"));
    assert!(!matches_pattern("png", "*.png"));
    assert!(matches_pattern("frame_01.png", "*_01.png"));
    assert!(matches_pattern("anything", "*"));
    assert!(matches_pattern("xab", "a*b"));
    assert!(!matches_pattern("xba", "a*b"));
    assert!(matches_pattern("dé.png", "*é.png"));
}
