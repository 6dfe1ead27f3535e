use oxidize::branch::Branch;
use oxidize::compile::{compile_all, compile_one, CompileRequest, CompileResponse, CompileResult};
use oxidize::path::{has_extension, stem_text, FilePath};
use oxidize::plugin::Plugin;
use oxidize::report::{json_report, report};
use oxidize::setup::assembly::{ensure_assemblies, AssemblyEvent, AssemblyStep};
use oxidize::setup::oxide::ensure_oxide;
use oxidize::setup::release::{ReleaseEvent, ReleaseStep};
use oxidize::text::{join, lines, split, trim};
use oxidize::utils::{traverse, Entry};

#[test]
fn branches_share_neither_folder_nor_symbol() {
    assert_ne!(Branch::Release.folder_name(), Branch::Staging.folder_name());
    let (release, staging) = (Branch::Release.preprocessor_symbols(), Branch::Staging.preprocessor_symbols());
    let differing: Vec<usize> = (0..5).filter(|i| release[*i] != staging[*i]).collect();
    assert_eq!(differing, vec![3]);
}

#[test]
fn joined_fields_make_the_text() {
    for text in ["", "_", "258551_42_x", "__a"] {
        let fields = split(text, '_');
        assert_eq!(join(&fields, "_"), text);
        assert!(fields.iter().all(|field| !field.contains('_')));
    }
}

#[test]
fn no_line_holds_a_line_feed() {
    assert!(lines("a\nb\r\n\n\rc").iter().all(|line| !line.contains('\n')));
}

#[test]
fn trimming_twice_is_trimming_once() {
    let once = trim(" \t 10.0 \r\n");
    assert_eq!(once, "10.0");
    assert_eq!(trim(&once), once);
}

#[test]
fn stem_and_extension_come_back() {
    for (stem, extension) in [("Vanish", "cs"), (".hidden", "dll"), ("a.b", ""), ("x", "manifest")] {
        let name = Some(format!("{stem}.{extension}").into_bytes());
        assert!(has_extension(&name, extension));
        assert_eq!(stem_text(&name).unwrap(), stem);
    }
}

#[test]
fn a_declaration_is_read_back() {
    for (name, author) in [("Vanish", "Whispers88"), ("", "a'b"), ("Größe", "日本")] {
        for ending in ["\")]\n}", "\", \"1.0\")]\r\nclass X {}", "\""] {
            let source = format!("using A;\n\t[Info(\"{name}\", \"{author}{ending}");
            let path = FilePath { text: String::new(), name: None };
            let plugin = Plugin::from_path(path, &source);
            assert_eq!((plugin.name.as_str(), plugin.author.as_str()), (name, author));
            assert!(!plugin.name.contains('\n') && !plugin.author.contains('"'));
        }
    }
}

#[test]
fn requests_that_differ_read_differently() {
    let lists: [Vec<String>; 4] =
        [vec![], vec![String::new()], vec!["a,b".to_string()], vec!["a".to_string(), "b".to_string()]];
    let mut seen: Vec<String> = Vec::new();
    for plugin in ["", "\"", "a"] {
        for references in &lists {
            for preprocessor in &lists {
                let json = CompileRequest { plugin: plugin.to_string(), references, preprocessor }.to_json();
                assert!(!seen.contains(&json));
                seen.push(json);
            }
        }
    }
}

#[test]
fn searching_below_finds_no_less() {
    let file = |path: &'static str| Entry::File { path, name: Some(path.as_bytes().to_vec()) };
    let below = Entry::Folder { name: Some(b"x".to_vec()), entries: vec![file("b.cs")] };
    let entries = vec![file("a.cs"), below, file("c.cs")];
    let flat = traverse(&entries, "cs", false);
    let deep = traverse(&entries, "cs", true);
    assert!(flat.iter().all(|path| deep.contains(path)));
    assert_eq!((flat.len(), deep.len()), (2, 3));
}

#[test]
fn searching_below_adds_what_is_in_the_folders() {
    let file = |path: &'static str| Entry::File { path, name: Some(path.as_bytes().to_vec()) };
    let folder = |name: &str, entries| Entry::Folder { name: Some(name.as_bytes().to_vec()), entries };
    let inner = || vec![file("b.cs"), folder("y", vec![file("d.cs"), file("e.dll")])];
    let entries = vec![
        file("a.cs"),
        folder("x", inner()),
        folder(".DepotDownloader", vec![file("f.cs")]),
        file("c.cs"),
    ];
    let below = inner();
    let mut parts = [traverse(&entries, "cs", false), traverse(&below, "cs", true)].concat();
    let mut deep = traverse(&entries, "cs", true);
    parts.sort();
    deep.sort();
    assert_eq!(deep, parts);
    assert_eq!(deep, [&"a.cs", &"b.cs", &"c.cs", &"d.cs"]);
}

#[test]
fn two_extensions_have_no_file_in_common() {
    let file = |path: &'static str| Entry::File { path, name: Some(path.as_bytes().to_vec()) };
    let entries = vec![file("a.cs"), file("a.dll"), file("a.cs.dll"), file("cs")];
    let (sources, libraries) = (traverse(&entries, "cs", true), traverse(&entries, "dll", true));
    assert!(sources.iter().all(|path| !libraries.contains(path)));
    assert_eq!((sources.len(), libraries.len()), (1, 2));
}

/// Compiles `names` with a compiler that rejects every plugin whose name has a "B" in it.
fn compiled(names: &[&str]) -> Vec<(String, String, CompileResult)> {
    let plugin = |name: &&str| Plugin {
        path: FilePath { text: format!("{name}.cs"), name: None },
        name: name.to_string(),
        author: "x".to_string(),
    };
    let plugins: Vec<Plugin> = names.iter().map(plugin).collect();
    let compile = |request: &CompileRequest<'_>| {
        compile_one(
            |sent: Vec<u8>| sent,
            |reply: &Vec<u8>| reply.clone(),
            |_: Vec<u8>| (),
            |_: (), text: String| {
                let success = !text.contains('B');
                Ok(CompileResponse { success, errored: false, errors: vec![text] })
            },
            request,
        )
    };
    let results: Result<Vec<(String, String, CompileResult)>, ()> = compile_all(
        &plugins,
        &vec![],
        &vec![],
        None,
        |_: Option<&String>| Ok((0, ())),
        |_: (), _: Option<&str>| (),
        |_: (), requests: &Vec<CompileRequest<'_>>, _: usize| Ok(requests.iter().map(compile).collect()),
    );
    results.unwrap()
}

#[test]
fn each_plugin_gets_the_result_of_its_own_request() {
    let results = compiled(&["A", "B", "C"]);
    assert!(matches!(results[0].2, CompileResult::Success));
    assert!(matches!(&results[1].2, CompileResult::Failure(errors) if errors[0].contains("\"B.cs\"")));
    assert!(matches!(results[2].2, CompileResult::Success));
}

#[test]
fn joined_lists_give_joined_results() {
    let shown = |names: &[&str]| -> Vec<String> { compiled(names).iter().map(|r| format!("{r:?}")).collect() };
    let lists: [&[&str]; 4] = [&[], &["A"], &["B", "C"], &["C", "B", "A"]];
    for first in lists {
        for second in lists {
            assert_eq!(shown(&[first, second].concat()), [shown(first), shown(second)].concat());
        }
    }
    assert!(shown(&[]).is_empty());
}

#[test]
fn requests_come_back_as_they_went() {
    let texts = ["", "plain", "\"quoted\"", "back\\slash/", "\u{0}\u{1}\u{1f} \u{7f}", "\t\n\r\u{8}\u{c}", "日本 😀"];
    for plugin in texts {
        let references: Vec<String> = texts.iter().map(|text| text.to_string()).collect();
        let preprocessor = vec![plugin.to_string()];
        let request =
            CompileRequest { plugin: plugin.to_string(), references: &references, preprocessor: &preprocessor };
        let value: serde_json::Value = serde_json::from_str(&request.to_json()).unwrap();
        assert_eq!(value.as_object().unwrap().len(), 3);
        assert_eq!(value["plugin"], plugin);
        assert_eq!(value["references"], serde_json::Value::from(references.clone()));
        assert_eq!(value["preprocessor"], serde_json::Value::from(preprocessor.clone()));
    }
}

#[test]
fn reports_come_back_as_they_went() {
    let results = vec![
        ("A".to_string(), "x\ny".to_string(), CompileResult::Success),
        ("B".to_string(), "\"".to_string(), CompileResult::Failure(vec!["one".to_string(), "two".to_string()])),
        ("C".to_string(), String::new(), CompileResult::Errored("\\".to_string())),
    ];
    let value: serde_json::Value = serde_json::from_str(&json_report(&results)).unwrap();
    assert_eq!(value.as_array().unwrap().len(), 3);
    assert_eq!((&value[0]["author"], &value[0]["status"]), (&"x\ny".into(), &"ok".into()));
    assert_eq!(value[0]["errors"].as_array().unwrap().len(), 0);
    assert_eq!((&value[1]["author"], &value[1]["status"]), (&"\"".into(), &"fail".into()));
    assert_eq!(value[1]["errors"], serde_json::Value::from(vec!["one", "two"]));
    assert_eq!((&value[2]["name"], &value[2]["status"]), (&"C".into(), &"error".into()));
    assert_eq!(value[2]["errors"], serde_json::Value::from(vec!["\\"]));
}

#[test]
fn counts_add_up_to_the_plugins() {
    let plugin = |result| ("A".to_string(), "B".to_string(), result);
    let results = vec![
        plugin(CompileResult::Success),
        plugin(CompileResult::Errored(String::new())),
        plugin(CompileResult::Success),
        plugin(CompileResult::Failure(vec![])),
    ];
    let report = report(&results);
    assert_eq!(report.ok + report.fail + report.err, results.len());
    assert_eq!(report.ok, 2);
}

#[test]
fn present_assemblies_are_never_downloaded() {
    let mut setup = ensure_assemblies(&Branch::Release, true, String::new());
    setup.advance(AssemblyEvent::Checked { present: true });
    for event in [
        AssemblyEvent::Checked { present: false },
        AssemblyEvent::Answered { confirmed: true },
        AssemblyEvent::Prepared,
        AssemblyEvent::Exited { success: false },
    ] {
        setup.advance(event);
        assert_eq!(setup.step, AssemblyStep::Listing);
    }
}

#[test]
fn present_components_are_never_fetched() {
    let setup = ensure_oxide(&Branch::Release)
        .advance(ReleaseEvent::Checked { present: true })
        .advance(ReleaseEvent::Checked { present: false })
        .advance(ReleaseEvent::Downloaded);
    assert!(matches!(setup.step, ReleaseStep::Present));
}
