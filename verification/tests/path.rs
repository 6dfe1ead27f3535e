use oxidize::path::{has_extension, has_name, stem_text, FilePath};
use oxidize::source::{check_terminal, choose_source, nothing_found, PathKind, Source};
use std::path::Path;

fn name(text: &str) -> Option<Vec<u8>> {
    Some(text.as_bytes().to_vec())
}

fn file_path(text: &str) -> FilePath {
    FilePath {
        text: text.to_string(),
        name: Path::new(text).file_name().map(|n| n.as_encoded_bytes().to_vec()),
    }
}

#[test]
fn names_are_taken_apart_as_std_does() {
    for text in ["a.cs", "a", ".cs", ".a.cs", "a.b.cs", "a.", ".", "..a", "...", "Ä.cs", "cs", "a.CS", "a.csx"] {
        let path = Path::new(text);
        let own = path.file_name().map(|n| n.as_encoded_bytes().to_vec());
        let extension = path.extension().and_then(|e| e.to_str());
        assert_eq!(has_extension(&own, "cs"), extension == Some("cs"), "{text}");
        assert_eq!(has_extension(&own, ""), extension == Some(""), "{text}");
        let stem = path.file_stem().and_then(|s| s.to_str()).map(str::to_string);
        assert_eq!(stem_text(&own), stem, "{text}");
    }
}

#[test]
fn the_parent_folder_has_no_extension() {
    assert!(!has_extension(&name(".."), ""));
    assert_eq!(stem_text(&name("..")), Some("..".to_string()));
}

#[test]
fn names_need_not_be_text() {
    let broken = Some(b"\xff\xfe.cs".to_vec());
    assert!(has_extension(&broken, "cs"));
    assert_eq!(stem_text(&broken), None);
    assert!(!has_extension(&Some(b"a.\xff".to_vec()), "cs"));
    assert_eq!(stem_text(&Some(b"a.\xff".to_vec())), Some("a".to_string()));
}

#[test]
fn missing_names_have_nothing() {
    assert!(!has_extension(&None, "cs"));
    assert!(!has_name(&None, "cs"));
    assert_eq!(stem_text(&None), None);
}

#[test]
fn whole_names_are_compared() {
    assert!(has_name(&name("Assembly-CSharp.dll"), "Assembly-CSharp.dll"));
    assert!(!has_name(&name("Assembly-CSharp-firstpass.dll"), "Assembly-CSharp.dll"));
}

#[test]
fn a_plugin_file_is_checked() {
    assert!(matches!(choose_source(PathKind::File, &file_path("plugins/Vanish.cs")), Source::Plugin));
}

#[test]
fn a_folder_is_checked() {
    assert!(matches!(choose_source(PathKind::Folder, &file_path("plugins")), Source::Folder));
}

#[test]
fn a_missing_path_is_refused() {
    match choose_source(PathKind::Missing, &file_path("nowhere/x.cs")) {
        Source::Refused(ending) => {
            assert_eq!(ending.message, "path not found: nowhere/x.cs");
            assert!(!ending.success);
        }
        other => panic!("{other:?}"),
    }
}

#[test]
fn another_file_is_refused() {
    match choose_source(PathKind::File, &file_path("readme.md")) {
        Source::Refused(ending) => {
            assert_eq!(ending.message, "not a .cs plugin: readme.md");
            assert!(!ending.success);
        }
        other => panic!("{other:?}"),
    }
}

#[test]
fn an_empty_folder_is_mentioned() {
    let ending = nothing_found(0, &file_path("plugins")).unwrap();
    assert_eq!(ending.message, "no plugins found in plugins");
    assert!(ending.success);
    assert!(nothing_found(1, &file_path("plugins")).is_none());
}

#[test]
fn a_terminal_is_needed() {
    let ending = check_terminal(false).unwrap();
    assert_eq!(ending.message, "oxidize must be run from the cli");
    assert!(!ending.success);
    assert!(check_terminal(true).is_none());
}
