use oxidize::compile::CompileResult;
use oxidize::report::{json_report, report, report_line, Tone};

fn results() -> Vec<(String, String, CompileResult)> {
    vec![
        ("Vanish".to_string(), "Whispers88".to_string(), CompileResult::Success),
        (
            "Custom Craft Times".to_string(),
            "Someone".to_string(),
            CompileResult::Failure(vec![
                "error CS0117: 'MemoryExtensions' does not contain a definition".to_string(),
                "error CS0103: \"x\"".to_string(),
                "error CS0246: y".to_string(),
            ]),
        ),
        ("Broken".to_string(), "Nobody".to_string(), CompileResult::Errored("expected value".to_string())),
    ]
}

fn printed(label: &str, text: &str) -> String {
    format!("{label} {text}")
}

#[test]
fn compiled_plugins_are_ok() {
    let line = report_line("Vanish", "Whispers88", &CompileResult::Success);
    assert_eq!(printed(&line.label, &line.text), "OK    Vanish");
    assert_eq!(line.tone, Tone::Green);
    assert!(line.details.is_empty());
}

#[test]
fn failed_plugins_are_listed_with_their_errors() {
    let report = report(&results());
    let line = &report.lines[1];
    assert_eq!(printed(&line.label, &line.text), "FAIL  Custom Craft Times (3 errors)");
    assert_eq!(line.tone, Tone::Yellow);
    assert_eq!(line.details.len(), 3);
    assert_eq!(
        line.details[0],
        "        error CS0117: 'MemoryExtensions' does not contain a definition"
    );
}

#[test]
fn a_failure_without_errors_says_so() {
    let line = report_line("X", "Y", &CompileResult::Failure(vec![]));
    assert_eq!(printed(&line.label, &line.text), "FAIL  X (0 errors)");
}

#[test]
fn broken_plugins_show_the_message() {
    let report = report(&results());
    let line = &report.lines[2];
    assert_eq!(printed(&line.label, &line.text), "ERROR Broken by Nobody: expected value");
    assert_eq!(line.tone, Tone::Red);
}

#[test]
fn every_plugin_is_counted() {
    let report = report(&results());
    assert_eq!((report.ok, report.fail, report.err), (1, 1, 1));
    assert_eq!(report.lines.len(), 3);
    assert!(!report.passed());
}

#[test]
fn only_a_clean_run_passes() {
    assert!(report(&vec![]).passed());
    let ok = || ("A".to_string(), "B".to_string(), CompileResult::Success);
    assert!(report(&vec![ok(), ok()]).passed());
    let failed = ("A".to_string(), "B".to_string(), CompileResult::Failure(vec![]));
    assert!(!report(&vec![ok(), failed]).passed());
    let broken = ("A".to_string(), "B".to_string(), CompileResult::Errored(String::new()));
    assert!(!report(&vec![ok(), broken]).passed());
}

#[test]
fn the_report_is_valid_json() {
    assert_eq!(json_report(&vec![]), "[]");
    let json = json_report(&results());
    let value: serde_json::Value = serde_json::from_str(&json).unwrap();
    assert_eq!(value[0]["name"], "Vanish");
    assert_eq!(value[0]["author"], "Whispers88");
    assert_eq!(value[0]["status"], "ok");
    assert_eq!(value[0]["errors"].as_array().unwrap().len(), 0);
    assert_eq!(value[1]["status"], "fail");
    assert_eq!(value[1]["errors"][1], "error CS0103: \"x\"");
    assert_eq!(value[2]["status"], "error");
    assert_eq!(value[2]["errors"][0], "expected value");
}

#[test]
fn the_json_report_is_compact() {
    let one = vec![("A".to_string(), "B".to_string(), CompileResult::Success)];
    assert_eq!(json_report(&one), "[{\"name\":\"A\",\"author\":\"B\",\"status\":\"ok\",\"errors\":[]}]");
}

#[test]
fn the_summary_shows_the_counts() {
    let counts = report(&results()).summary();
    let shown: Vec<String> = counts.iter().map(|c| format!("{} {}", c.number, c.label)).collect();
    assert_eq!(shown.join("  "), "1 OK  1 FAIL  1 ERROR");
    assert_eq!((counts[0].tone, counts[1].tone, counts[2].tone), (Tone::Green, Tone::Yellow, Tone::Red));
}
