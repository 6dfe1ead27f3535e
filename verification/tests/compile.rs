use oxidize::compile::{
    compile_all, compile_one, compiler_dll, game_assembly, judge, label, publicize_warning, reply_text, runtime_config,
    worker_count, CompileRequest, CompileResponse, CompileResult,
};
use oxidize::path::FilePath;
use oxidize::plugin::Plugin;
use oxidize::setup::compiler::compiler_dir;
use std::cell::RefCell;

fn strings(list: &[&str]) -> Vec<String> {
    list.iter().map(|s| s.to_string()).collect()
}

fn response(success: bool, errored: bool, errors: &[&str]) -> CompileResponse {
    CompileResponse { success, errored, errors: strings(errors) }
}

fn path(text: &str) -> FilePath {
    let name = text.rsplit('/').next().map(|n| n.as_bytes().to_vec());
    FilePath { text: text.to_string(), name }
}

fn plugin(name: &str, author: &str) -> Plugin {
    Plugin { path: path(&format!("plugins/{name}.cs")), name: name.to_string(), author: author.to_string() }
}

fn is_failure(result: &CompileResult, expected: &[&str]) -> bool {
    matches!(result, CompileResult::Failure(errors) if *errors == strings(expected))
}

fn is_errored(result: &CompileResult, expected: &str) -> bool {
    matches!(result, CompileResult::Errored(message) if message == expected)
}

#[test]
fn requests_are_written_as_json_objects() {
    let references = strings(&["lib/a.dll", "lib\\b.dll"]);
    let preprocessor = strings(&["OXIDE"]);
    let request =
        CompileRequest { plugin: "plugins/\"A\".cs".to_string(), references: &references, preprocessor: &preprocessor };
    assert_eq!(
        request.to_json(),
        "{\"plugin\":\"plugins/\\\"A\\\".cs\",\"references\":[\"lib/a.dll\",\"lib\\\\b.dll\"],\"preprocessor\":[\"OXIDE\"]}"
    );
    let bare = CompileRequest { plugin: String::new(), references: &[], preprocessor: &[] };
    assert_eq!(bare.to_json(), "{\"plugin\":\"\",\"references\":[],\"preprocessor\":[]}");
}

#[test]
fn requests_are_read_back_from_their_json() {
    let references = strings(&["a\u{0}b", "\n"]);
    let preprocessor = strings(&["X", "Y"]);
    let request =
        CompileRequest { plugin: "p\t.cs".to_string(), references: &references, preprocessor: &preprocessor };
    let json = request.to_json();
    assert!(!json.contains('\0'));
    let value: serde_json::Value = serde_json::from_str(&json).unwrap();
    assert_eq!(value["plugin"], "p\t.cs");
    assert_eq!(value["references"][0], "a\u{0}b");
    assert_eq!(value["preprocessor"][1], "Y");
}

#[test]
fn a_success_is_a_success() {
    assert!(matches!(judge(Ok(response(true, false, &[]))), CompileResult::Success));
    assert!(matches!(judge(Ok(response(true, false, &["ignored"]))), CompileResult::Success));
}

#[test]
fn a_failure_keeps_its_errors() {
    assert!(is_failure(&judge(Ok(response(false, false, &["CS1", "CS2"]))), &["CS1", "CS2"]));
    assert!(is_failure(&judge(Ok(response(false, false, &[]))), &[]));
}

#[test]
fn giving_up_outweighs_success() {
    assert!(is_errored(&judge(Ok(response(true, true, &["one", "two"]))), "one; two"));
    assert!(is_errored(&judge(Ok(response(false, true, &[]))), ""));
}

#[test]
fn a_reply_that_cannot_be_parsed_is_an_error() {
    assert!(is_errored(&judge(Err("expected value".to_string())), "expected value"));
}

#[test]
fn a_reply_that_is_no_text_is_an_error() {
    let expected = std::str::from_utf8(b"{\xff").unwrap_err().to_string();
    assert!(is_errored(&reply_text(b"{\xff").unwrap_err(), &expected));
    assert_eq!(reply_text(b"{}").unwrap(), "{}");
}

/// Compiles with a compiler that answers `reply`, and gives the calls that were made as well.
fn run_one(reply: &[u8], parsed: fn(String) -> Result<CompileResponse, String>) -> (CompileResult, Vec<String>) {
    let calls: RefCell<Vec<String>> = RefCell::new(Vec::new());
    let note = |call: String| calls.borrow_mut().push(call);
    let request = CompileRequest { plugin: "p.cs".to_string(), references: &[], preprocessor: &[] };
    let result = compile_one(
        |sent: Vec<u8>| {
            assert_eq!(sent.iter().position(|b| *b == 0), Some(sent.len() - 1));
            note(format!("compile {}", String::from_utf8(sent).unwrap().trim_end_matches('\0')));
            7
        },
        |handle: &i32| {
            note(format!("read {handle}"));
            reply.to_vec()
        },
        |handle: i32| {
            note(format!("free {handle}"));
            'k'
        },
        |receipt: char, text: String| {
            note(format!("parse {receipt} {text}"));
            parsed(text)
        },
        &request,
    );
    (result, calls.into_inner())
}

#[test]
fn the_reply_is_given_back_before_it_is_parsed() {
    let (result, calls) = run_one(b"{}", |_| Ok(response(true, false, &[])));
    assert!(matches!(result, CompileResult::Success));
    assert_eq!(
        calls,
        vec!["compile {\"plugin\":\"p.cs\",\"references\":[],\"preprocessor\":[]}", "read 7", "free 7", "parse k {}"]
    );
}

#[test]
fn the_reply_is_given_back_even_if_it_is_no_text() {
    let (result, calls) = run_one(b"\xff", |_| panic!("not parsed"));
    assert!(matches!(result, CompileResult::Errored(_)));
    assert_eq!(&calls[1..], ["read 7", "free 7"]);
}

#[test]
fn a_parser_error_becomes_the_result() {
    let (result, _) = run_one(b"x", |text| Err(format!("bad {text}")));
    assert!(is_errored(&result, "bad x"));
}

#[test]
fn jobs_are_capped() {
    assert_eq!(worker_count(None), 1);
    assert_eq!(worker_count(Some(1)), 1);
    assert_eq!(worker_count(Some(7)), 7);
    assert_eq!(worker_count(Some(8)), 8);
    assert_eq!(worker_count(Some(64)), 8);
}

#[test]
fn the_compiler_is_in_its_folder() {
    assert_eq!(
        runtime_config(compiler_dir()).parts,
        vec!["tools", "compiler", "OxideCompiler.runtimeconfig.json"]
    );
    assert_eq!(compiler_dll(compiler_dir()).parts, vec!["tools", "compiler", "OxideCompiler.dll"]);
}

#[test]
fn the_first_game_assembly_is_taken() {
    let references = vec![path("a/Oxide.dll"), path("a/Assembly-CSharp.dll"), path("b/Assembly-CSharp.dll")];
    assert_eq!(game_assembly(&references), Some(1));
    assert_eq!(game_assembly(&vec![path("a/assembly-csharp.dll")]), None);
}

#[test]
fn outcomes_get_the_names_of_their_plugins() {
    let plugins = vec![plugin("A", "x"), plugin("B", "y")];
    let results = label(&plugins, vec![CompileResult::Success, CompileResult::Failure(vec![])]);
    assert_eq!((results[0].0.as_str(), results[0].1.as_str()), ("A", "x"));
    assert!(matches!(results[0].2, CompileResult::Success));
    assert_eq!((results[1].0.as_str(), results[1].1.as_str()), ("B", "y"));
    assert!(is_failure(&results[1].2, &[]));
    assert_eq!(label(&plugins, vec![]).len(), 0);
    assert_eq!(label(&vec![], vec![CompileResult::Success]).len(), 0);
}

/// Compiles two plugins where making the assembly public gives `status`.
fn run_all(
    references: &[&str],
    status: Result<i32, String>,
    answer: Result<(), String>,
) -> (Result<Vec<(String, String, CompileResult)>, String>, Vec<String>) {
    let calls: RefCell<Vec<String>> = RefCell::new(Vec::new());
    let note = |call: String| calls.borrow_mut().push(call);
    let plugins = vec![plugin("A", "x"), plugin("B", "y")];
    let references: Vec<FilePath> = references.iter().map(|r| path(r)).collect();
    let results = compile_all(
        &plugins,
        &references,
        &strings(&["RUST"]),
        Some(12),
        |path: Option<&String>| {
            note(format!("publicize {path:?}"));
            Ok::<(i32, Vec<&'static str>), String>((status?, vec!["opened"]))
        },
        |receipt: Vec<&'static str>, warning: Option<&str>| {
            note(format!("warn {warning:?}"));
            [receipt, vec!["warned"]].concat()
        },
        |receipt: Vec<&'static str>, requests: &Vec<CompileRequest<'_>>, jobs: usize| {
            assert_eq!(receipt, ["opened", "warned"]);
            for request in requests {
                note(format!("{jobs} {}", request.to_json()));
            }
            answer.clone()?;
            Ok(vec![CompileResult::Success, CompileResult::Errored("e".to_string())])
        },
    );
    (results, calls.into_inner())
}

#[test]
fn all_plugins_are_compiled_in_order() {
    let (results, calls) = run_all(&["l/x.dll", "l/Assembly-CSharp.dll"], Ok(0), Ok(()));
    let results = results.unwrap();
    assert_eq!(results.len(), 2);
    assert_eq!(results[0].0, "A");
    assert!(matches!(results[0].2, CompileResult::Success));
    assert_eq!(results[1].1, "y");
    assert!(is_errored(&results[1].2, "e"));
    assert_eq!(
        calls,
        vec![
            "publicize Some(\"l/Assembly-CSharp.dll\")",
            "warn None",
            "8 {\"plugin\":\"plugins/A.cs\",\"references\":[\"l/x.dll\",\"l/Assembly-CSharp.dll\"],\"preprocessor\":[\"RUST\"]}",
            "8 {\"plugin\":\"plugins/B.cs\",\"references\":[\"l/x.dll\",\"l/Assembly-CSharp.dll\"],\"preprocessor\":[\"RUST\"]}",
        ]
    );
}

#[test]
fn a_closed_assembly_only_gives_a_warning() {
    let (results, calls) = run_all(&["l/Assembly-CSharp.dll"], Ok(3), Ok(()));
    assert_eq!(results.unwrap().len(), 2);
    assert_eq!(calls[1], "warn Some(\"warning: failed to publicize Assembly-CSharp.dll\")");
    assert_eq!(calls.len(), 4);
}

#[test]
fn without_the_assembly_nothing_is_made_public() {
    for status in [0, 3] {
        let (results, calls) = run_all(&["l/x.dll"], Ok(status), Ok(()));
        assert!(results.is_ok());
        assert_eq!(&calls[..2], ["publicize None", "warn None"]);
        assert_eq!(calls.len(), 4);
    }
}

#[test]
fn only_a_closed_assembly_is_warned_of() {
    assert_eq!(publicize_warning(true, 0), None);
    assert_eq!(publicize_warning(true, -1), Some("warning: failed to publicize Assembly-CSharp.dll"));
    assert_eq!(publicize_warning(false, 1), None);
}

#[test]
fn an_error_before_compiling_ends_it() {
    let (results, calls) = run_all(&["l/Assembly-CSharp.dll"], Err("nul".to_string()), Ok(()));
    assert_eq!(results.unwrap_err(), "nul");
    assert_eq!(calls.len(), 1);
}

#[test]
fn an_error_while_compiling_ends_it() {
    let (results, _) = run_all(&[], Ok(0), Err("pool".to_string()));
    assert_eq!(results.unwrap_err(), "pool");
}
