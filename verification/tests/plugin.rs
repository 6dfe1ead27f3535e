use oxidize::path::FilePath;
use oxidize::plugin::Plugin;

fn plugin(file: &str, contents: &str) -> (String, String) {
    let path = FilePath { text: format!("plugins/{file}"), name: Some(file.as_bytes().to_vec()) };
    let plugin = Plugin::from_path(path, contents);
    assert_eq!(plugin.path.text, format!("plugins/{file}"));
    (plugin.name, plugin.author)
}

fn pair(name: &str, author: &str) -> (String, String) {
    (name.to_string(), author.to_string())
}

#[test]
fn the_declaration_names_the_plugin() {
    let source = "using Oxide;\r\nnamespace Oxide.Plugins\r\n{\r\n    [Info(\"Custom Craft Times\", \"Some Author\", \"1.2.3\")]\r\n";
    assert_eq!(plugin("CustomCraftTimes.cs", source), pair("Custom Craft Times", "Some Author"));
}

#[test]
fn the_first_declaration_counts() {
    let source = "// [Info(\"A\", \"B\")]\n[Info(\"C\", \"D\")]\n";
    assert_eq!(plugin("x.cs", source), pair("A", "B"));
}

#[test]
fn without_a_declaration_the_file_names_the_plugin() {
    assert_eq!(plugin("Vanish.cs", "class Vanish {}"), pair("Vanish", "Unknown"));
    assert_eq!(plugin("Vanish.old.cs", ""), pair("Vanish.old", "Unknown"));
}

#[test]
fn an_incomplete_declaration_does_not_count() {
    assert_eq!(plugin("X.cs", "[Info(\"Only a name\")]\n[Info(\"A\", \"B\")]"), pair("X", "Unknown"));
}

#[test]
fn the_author_may_be_the_last_field() {
    assert_eq!(plugin("X.cs", "[Info(\"A\", \"B\r\n"), pair("A", "B"));
    assert_eq!(plugin("X.cs", "[Info(\"A\", \"B\r"), pair("A", "B\r"));
}

#[test]
fn empty_fields_are_kept() {
    assert_eq!(plugin("X.cs", "[Info(\"\", \"\")]"), pair("", ""));
}

#[test]
fn quotation_marks_before_the_declaration_shift_the_fields() {
    assert_eq!(plugin("X.cs", "\"x\" [Info(\"A\", \"B\")]"), pair("x", "A"));
}

#[test]
fn a_nameless_plugin_is_unknown() {
    let path = FilePath { text: "..".to_string(), name: None };
    let plugin = Plugin::from_path(path, "");
    assert_eq!((plugin.name.as_str(), plugin.author.as_str()), ("unknown", "Unknown"));
    let path = FilePath { text: "\u{fffd}.cs".to_string(), name: Some(b"\xff.cs".to_vec()) };
    let plugin = Plugin::from_path(path, "");
    assert_eq!((plugin.name.as_str(), plugin.author.as_str()), ("unknown", "Unknown"));
}
