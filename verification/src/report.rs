//! The report on the compiled plugins.
use vstd::prelude::*;

use crate::compile::{labelled, outcomes_of, CompileResult, Outcome};
use crate::json::{
    array_of, json_array, json_list, json_member, json_object, json_string, list_to_json, parsed,
    says, string_to_json, Json,
};
use crate::plugin::Plugin;
use crate::text::{decimal, decimal_of, join_with, texts};

verus! {

/// The forms in which the report can be had.
#[derive(Debug, Clone, Copy, PartialEq, Eq, Structural)]
pub enum OutputFormat {
    /// Lines for a human reader.
    Human,
    /// A JSON list with an object for each plugin.
    Json,
}

/// The colour of a label.
#[derive(Debug, Clone, Copy, PartialEq, Eq, Structural)]
pub enum Tone {
    Green,
    Yellow,
    Red,
}

/// What the report says of a plugin: a label and, after a space, `text`; then the `details`, each
/// on a line of its own.
#[derive(Debug)]
pub struct ReportLine {
    pub label: String,
    pub tone: Tone,
    pub text: String,
    pub details: Vec<String>,
}

/// A `ReportLine` by the texts that it holds.
pub struct ReportLineView {
    pub label: Seq<char>,
    pub tone: Tone,
    pub text: Seq<char>,
    pub details: Seq<Seq<char>>,
}

impl View for ReportLine {
    type V = ReportLineView;

    open spec fn view(&self) -> ReportLineView {
        ReportLineView {
            label: self.label@,
            tone: self.tone,
            text: self.text@,
            details: texts(self.details@),
        }
    }
}

/// The report: what it says of each plugin, and how many compiled, failed and could not be tried.
#[derive(Debug)]
pub struct Report {
    pub lines: Vec<ReportLine>,
    pub ok: usize,
    pub fail: usize,
    pub err: usize,
}

/// How far compile errors are indented.
pub open spec fn indented(error: Seq<char>) -> Seq<char> {
    "        "@ + error
}

/// What the report says of the plugin `name` by `author`.
pub open spec fn line_for(plugin: (Seq<char>, Seq<char>, Outcome)) -> ReportLineView {
    let (name, author, outcome) = plugin;
    match outcome {
        Outcome::Success => ReportLineView {
            label: "OK   "@,
            tone: Tone::Green,
            text: name,
            details: seq![],
        },
        Outcome::Failure(errors) => ReportLineView {
            label: "FAIL "@,
            tone: Tone::Yellow,
            text: name + " ("@ + decimal_of(errors.len()) + " errors)"@,
            details: errors.map_values(|error: Seq<char>| indented(error)),
        },
        Outcome::Errored(message) => ReportLineView {
            label: "ERROR"@,
            tone: Tone::Red,
            text: name + " by "@ + author + ": "@ + message,
            details: seq![],
        },
    }
}

/// How many of the plugins have an outcome for which `is` holds.
pub open spec fn count_of(
    plugins: Seq<(Seq<char>, Seq<char>, Outcome)>,
    is: spec_fn(Outcome) -> bool,
) -> nat
    decreases plugins.len(),
{
    if plugins.len() == 0 {
        0
    } else {
        count_of(plugins.drop_last(), is) + if is(plugins.last().2) {
            1nat
        } else {
            0nat
        }
    }
}

/// How many plugins compiled.
pub open spec fn successes(plugins: Seq<(Seq<char>, Seq<char>, Outcome)>) -> nat {
    count_of(plugins, |outcome: Outcome| outcome is Success)
}

/// How many plugins have compile errors.
pub open spec fn failures(plugins: Seq<(Seq<char>, Seq<char>, Outcome)>) -> nat {
    count_of(plugins, |outcome: Outcome| outcome is Failure)
}

/// How many plugins could not be tried.
pub open spec fn breakdowns(plugins: Seq<(Seq<char>, Seq<char>, Outcome)>) -> nat {
    count_of(plugins, |outcome: Outcome| outcome is Errored)
}

/// The compile errors, indented.
fn indent_all(errors: &Vec<String>) -> (details: Vec<String>)
    ensures
        texts(details@) == texts(errors@).map_values(|error: Seq<char>| indented(error)),
        details@.len() == errors@.len(),
        forall|i: int|
            0 <= i < errors@.len() ==> (#[trigger] details@[i])@ == "        "@ + errors@[i]@,
{
    let mut details: Vec<String> = Vec::new();
    let mut i: usize = 0;
    while i < errors.len()
        invariant
            i <= errors@.len(),
            details@.len() == i,
            forall|k: int| 0 <= k < i ==> details@[k]@ == indented(errors@[k]@),
        decreases errors@.len() - i,
    {
        let mut detail = "        ".to_owned();
        detail.append(errors[i].as_str());
        details.push(detail);
        i += 1;
    }
    assert(texts(details@) =~= texts(errors@).map_values(|error: Seq<char>| indented(error)));
    details
}

/// What the report says of the plugin `name` by `author`.
pub fn report_line(name: &str, author: &str, result: &CompileResult) -> (line: ReportLine)
    ensures
        line@ == line_for((name@, author@, result@)),
        result is Success ==> {
            &&& line.label@ == "OK   "@
            &&& line.tone is Green
            &&& line.text@ == name@
            &&& line.details@.len() == 0
        },
        result is Failure ==> {
            &&& line.label@ == "FAIL "@
            &&& line.tone is Yellow
            &&& line.text@ == name@ + " ("@ + decimal_of(result->Failure_0@.len()) + " errors)"@
            &&& line.details@.len() == result->Failure_0@.len()
            &&& forall|i: int|
                0 <= i < result->Failure_0@.len() ==> (#[trigger] line.details@[i])@
                    == "        "@ + result->Failure_0@[i]@
        },
        result is Errored ==> {
            &&& line.label@ == "ERROR"@
            &&& line.tone is Red
            &&& line.text@ == name@ + " by "@ + author@ + ": "@ + result->Errored_0@
            &&& line.details@.len() == 0
        },
{
    let mut text = name.to_owned();
    match result {
        CompileResult::Success => {
            let line = ReportLine {
                label: "OK   ".to_owned(),
                tone: Tone::Green,
                text,
                details: Vec::new(),
            };
            assert(line@.details =~= Seq::<Seq<char>>::empty());
            line
        },
        CompileResult::Failure(errors) => {
            text.append(" (");
            text.append(decimal(errors.len()).as_str());
            text.append(" errors)");
            assert(texts(errors@).len() == errors@.len());
            ReportLine {
                label: "FAIL ".to_owned(),
                tone: Tone::Yellow,
                text,
                details: indent_all(errors),
            }
        },
        CompileResult::Errored(message) => {
            text.append(" by ");
            text.append(author);
            text.append(": ");
            text.append(message.as_str());
            let line = ReportLine {
                label: "ERROR".to_owned(),
                tone: Tone::Red,
                text,
                details: Vec::new(),
            };
            assert(line@.details =~= Seq::<Seq<char>>::empty());
            line
        },
    }
}

/// The report on `results`.
pub fn report(results: &Vec<(String, String, CompileResult)>) -> (report: Report)
    ensures
        report.lines@.len() == results@.len(),
        report.lines@.map_values(|line: ReportLine| line@) == outcomes_of(results@).map_values(
            |plugin: (Seq<char>, Seq<char>, Outcome)| line_for(plugin),
        ),
        report.ok == successes(outcomes_of(results@)),
        report.fail == failures(outcomes_of(results@)),
        report.err == breakdowns(outcomes_of(results@)),
        report.ok + report.fail + report.err == results@.len(),
        report.fail + report.err == 0 <==> forall|i: int|
            0 <= i < results@.len() ==> (#[trigger] results@[i]).2 is Success,
        forall|i: int|
            0 <= i < results@.len() && (#[trigger] results@[i]).2 is Success ==> {
                &&& report.lines@[i].label@ == "OK   "@
                &&& report.lines@[i].tone is Green
                &&& report.lines@[i].text@ == results@[i].0@
                &&& report.lines@[i].details@.len() == 0
            },
        forall|i: int|
            0 <= i < results@.len() && (#[trigger] results@[i]).2 is Failure ==> {
                &&& report.lines@[i].label@ == "FAIL "@
                &&& report.lines@[i].tone is Yellow
                &&& report.lines@[i].text@ == results@[i].0@ + " ("@ + decimal_of(
                    results@[i].2->Failure_0@.len(),
                ) + " errors)"@
                &&& report.lines@[i].details@.len() == results@[i].2->Failure_0@.len()
            },
        forall|i: int, j: int|
            0 <= i < results@.len() && results@[i].2 is Failure && 0 <= j
                < results@[i].2->Failure_0@.len() ==> (#[trigger] report.lines@[i].details@[j])@
                == "        "@ + results@[i].2->Failure_0@[j]@,
        forall|i: int|
            0 <= i < results@.len() && (#[trigger] results@[i]).2 is Errored ==> {
                &&& report.lines@[i].label@ == "ERROR"@
                &&& report.lines@[i].tone is Red
                &&& report.lines@[i].text@ == results@[i].0@ + " by "@ + results@[i].1@ + ": "@
                    + results@[i].2->Errored_0@
                &&& report.lines@[i].details@.len() == 0
            },
{
    let ghost plugins = outcomes_of(results@);
    let mut lines: Vec<ReportLine> = Vec::new();
    let (mut ok, mut fail, mut err): (usize, usize, usize) = (0, 0, 0);
    let mut i: usize = 0;
    while i < results.len()
        invariant
            i <= results@.len(),
            plugins == outcomes_of(results@),
            lines@.len() == i,
            forall|k: int| 0 <= k < i ==> (#[trigger] lines@[k])@ == line_for(plugins[k]),
            fail + err == 0 <==> forall|k: int|
                0 <= k < i ==> (#[trigger] results@[k]).2 is Success,
            forall|k: int|
                0 <= k < i && (#[trigger] results@[k]).2 is Success ==> {
                    &&& lines@[k].label@ == "OK   "@
                    &&& lines@[k].tone is Green
                    &&& lines@[k].text@ == results@[k].0@
                    &&& lines@[k].details@.len() == 0
                },
            forall|k: int|
                0 <= k < i && (#[trigger] results@[k]).2 is Failure ==> {
                    &&& lines@[k].label@ == "FAIL "@
                    &&& lines@[k].tone is Yellow
                    &&& lines@[k].text@ == results@[k].0@ + " ("@ + decimal_of(
                        results@[k].2->Failure_0@.len(),
                    ) + " errors)"@
                    &&& lines@[k].details@.len() == results@[k].2->Failure_0@.len()
                },
            forall|k: int, j: int|
                0 <= k < i && results@[k].2 is Failure && 0 <= j < results@[k].2->Failure_0@.len()
                    ==> (#[trigger] lines@[k].details@[j])@ == "        "@
                    + results@[k].2->Failure_0@[j]@,
            forall|k: int|
                0 <= k < i && (#[trigger] results@[k]).2 is Errored ==> {
                    &&& lines@[k].label@ == "ERROR"@
                    &&& lines@[k].tone is Red
                    &&& lines@[k].text@ == results@[k].0@ + " by "@ + results@[k].1@ + ": "@
                        + results@[k].2->Errored_0@
                    &&& lines@[k].details@.len() == 0
                },
            ok == successes(plugins.take(i as int)),
            fail == failures(plugins.take(i as int)),
            err == breakdowns(plugins.take(i as int)),
            ok + fail + err == i,
        decreases results@.len() - i,
    {
        let (name, author, result) = &results[i];
        assert(plugins.take(i + 1).drop_last() =~= plugins.take(i as int));
        assert(plugins.take(i + 1).last() == plugins[i as int]);
        assert(plugins[i as int] == (name@, author@, result@));
        lines.push(report_line(name.as_str(), author.as_str(), result));
        match result {
            CompileResult::Success => {
                ok += 1;
            },
            CompileResult::Failure(_) => {
                fail += 1;
            },
            CompileResult::Errored(_) => {
                err += 1;
            },
        }
        i += 1;
    }
    assert(plugins.take(i as int) =~= plugins);
    assert(lines@.map_values(|line: ReportLine| line@) =~= plugins.map_values(
        |plugin: (Seq<char>, Seq<char>, Outcome)| line_for(plugin),
    ));
    Report { lines, ok, fail, err }
}

/// A number at the end of the report, and what it counts.
#[derive(Debug)]
pub struct ReportCount {
    pub number: String,
    pub tone: Tone,
    pub label: String,
}

impl ReportCount {
    /// The count says that there are `n` of `label`, in the colour `tone`.
    pub open spec fn says(self, n: usize, tone: Tone, label: Seq<char>) -> bool {
        self.number@ == decimal_of(n as nat) && self.tone == tone && self.label@ == label
    }
}

impl Report {
    /// The counts at the end of the report, in order.
    pub fn summary(&self) -> (counts: Vec<ReportCount>)
        ensures
            counts@.len() == 3,
            counts@[0].says(self.ok, Tone::Green, "OK"@),
            counts@[1].says(self.fail, Tone::Yellow, "FAIL"@),
            counts@[2].says(self.err, Tone::Red, "ERROR"@),
            counts@[0].number@ == decimal_of(self.ok as nat),
            counts@[0].tone is Green && counts@[0].label@ == "OK"@,
            counts@[1].number@ == decimal_of(self.fail as nat),
            counts@[1].tone is Yellow && counts@[1].label@ == "FAIL"@,
            counts@[2].number@ == decimal_of(self.err as nat),
            counts@[2].tone is Red && counts@[2].label@ == "ERROR"@,
    {
        vec![
            ReportCount { number: decimal(self.ok), tone: Tone::Green, label: "OK".to_owned() },
            ReportCount { number: decimal(self.fail), tone: Tone::Yellow, label: "FAIL".to_owned() },
            ReportCount { number: decimal(self.err), tone: Tone::Red, label: "ERROR".to_owned() },
        ]
    }

    /// Whether the program ends with success: no plugin failed, and none could not be tried.
    pub fn passed(&self) -> (passed: bool)
        ensures
            passed == (self.fail + self.err == 0),
    {
        self.fail == 0 && self.err == 0
    }
}

// ---------------------------------------------------------------------------
// The report as JSON

/// How an outcome is called in JSON.
pub open spec fn status_of(outcome: Outcome) -> Seq<char> {
    match outcome {
        Outcome::Success => "ok"@,
        Outcome::Failure(_) => "fail"@,
        Outcome::Errored(_) => "error"@,
    }
}

/// The errors that belong to an outcome.
pub open spec fn errors_of(outcome: Outcome) -> Seq<Seq<char>> {
    match outcome {
        Outcome::Success => seq![],
        Outcome::Failure(errors) => errors,
        Outcome::Errored(message) => seq![message],
    }
}

/// The JSON object for a plugin.
pub open spec fn plugin_json(plugin: (Seq<char>, Seq<char>, Outcome)) -> Seq<char> {
    "{\"name\":"@ + json_string(plugin.0) + ",\"author\":"@ + json_string(plugin.1)
        + ",\"status\":"@ + json_string(status_of(plugin.2)) + ",\"errors\":"@ + json_list(
        errors_of(plugin.2),
    ) + "}"@
}

/// The JSON object for the plugin `name` by `author`.
fn plugin_to_json(name: &str, author: &str, result: &CompileResult) -> (json: String)
    ensures
        json@ == plugin_json((name@, author@, result@)),
{
    let (status, errors) = match result {
        CompileResult::Success => {
            let none: Vec<String> = Vec::new();
            assert(texts(none@) =~= errors_of(result@));
            ("ok", list_to_json(none.as_slice()))
        },
        CompileResult::Failure(errors) => ("fail", list_to_json(errors.as_slice())),
        CompileResult::Errored(message) => {
            let one = vec![message.clone()];
            assert(texts(one@) =~= errors_of(result@));
            ("error", list_to_json(one.as_slice()))
        },
    };
    let mut json = "{\"name\":".to_owned();
    json.append(string_to_json(name).as_str());
    json.append(",\"author\":");
    json.append(string_to_json(author).as_str());
    json.append(",\"status\":");
    json.append(string_to_json(status).as_str());
    json.append(",\"errors\":");
    json.append(errors.as_str());
    json.append("}");
    json
}

/// The report on `results` as a JSON list with an object for each plugin, in order.
pub fn json_report(results: &Vec<(String, String, CompileResult)>) -> (json: String)
    ensures
        json@ == json_array(
            outcomes_of(results@).map_values(
                |plugin: (Seq<char>, Seq<char>, Outcome)| plugin_json(plugin),
            ),
        ),
{
    let ghost plugins = outcomes_of(results@);
    let mut items: Vec<String> = Vec::new();
    let mut i: usize = 0;
    while i < results.len()
        invariant
            i <= results@.len(),
            plugins == outcomes_of(results@),
            items@.len() == i,
            forall|k: int| 0 <= k < i ==> (#[trigger] items@[k])@ == plugin_json(plugins[k]),
        decreases results@.len() - i,
    {
        let (name, author, result) = &results[i];
        assert(plugins[i as int] == (name@, author@, result@));
        items.push(plugin_to_json(name.as_str(), author.as_str(), result));
        i += 1;
    }
    assert(texts(items@) =~= plugins.map_values(
        |plugin: (Seq<char>, Seq<char>, Outcome)| plugin_json(plugin),
    ));
    array_of(&items)
}

// ---------------------------------------------------------------------------
// What every report keeps

/// Every plugin is counted once.
pub proof fn counts_add_up(plugins: Seq<(Seq<char>, Seq<char>, Outcome)>)
    ensures
        successes(plugins) + failures(plugins) + breakdowns(plugins) == plugins.len(),
    decreases plugins.len(),
{
    if plugins.len() > 0 {
        counts_add_up(plugins.drop_last());
    }
}

/// The program ends with success just where every plugin compiled.
pub proof fn success_means_all_compiled(plugins: Seq<(Seq<char>, Seq<char>, Outcome)>)
    ensures
        failures(plugins) + breakdowns(plugins) == 0 <==> forall|i: int|
            0 <= i < plugins.len() ==> (#[trigger] plugins[i]).2 is Success,
    decreases plugins.len(),
{
    if plugins.len() > 0 {
        let before = plugins.drop_last();
        success_means_all_compiled(before);
        assert(plugins.last() == plugins[plugins.len() - 1]);
        assert(forall|i: int| 0 <= i < before.len() ==> #[trigger] before[i] == plugins[i]);
        if forall|i: int| 0 <= i < plugins.len() ==> (#[trigger] plugins[i]).2 is Success {
            assert forall|i: int| 0 <= i < before.len() implies (#[trigger] before[i]).2 is Success by {
                assert(before[i] == plugins[i]);
            }
        }
        if forall|i: int| 0 <= i < before.len() ==> (#[trigger] before[i]).2 is Success {
            if plugins.last().2 is Success {
                assert forall|i: int| 0 <= i < plugins.len() implies (#[trigger] plugins[i]).2 is Success by {
                    if i < before.len() {
                        assert(before[i] == plugins[i]);
                    }
                }
            }
        }
    }
}

/// Each line is about the plugin in its place: where as many outcomes came back as there are
/// plugins, the report says of each plugin what became of it, under its own name.
pub proof fn lines_are_about_their_plugins(
    results: Seq<(String, String, CompileResult)>,
    plugins: Seq<Plugin>,
    outcomes: Seq<CompileResult>,
    i: int,
)
    requires
        labelled(results, plugins, outcomes),
        outcomes.len() == plugins.len(),
        0 <= i < plugins.len(),
    ensures
        outcomes_of(results).len() == plugins.len(),
        line_for(outcomes_of(results)[i]) == line_for(
            (plugins[i].name@, plugins[i].author@, outcomes[i]@),
        ),
{
    assert(outcomes_of(results)[i] == (results[i].0@, results[i].1@, results[i].2@));
}

/// What the JSON report says of a plugin.
pub open spec fn plugin_read(plugin: (Seq<char>, Seq<char>, Outcome)) -> Json {
    Json::Object(
        seq![
            ("name"@, Json::Text(plugin.0)),
            ("author"@, Json::Text(plugin.1)),
            ("status"@, Json::Text(status_of(plugin.2))),
            (
                "errors"@,
                Json::List(errors_of(plugin.2).map_values(|text: Seq<char>| Json::Text(text))),
            ),
        ],
    )
}

/// The JSON report, parsed, is a list with an object for each plugin in its place, which gives its
/// name, its author, what became of it and the errors.
pub proof fn reports_are_read_back(plugins: Seq<(Seq<char>, Seq<char>, Outcome)>)
    ensures
        parsed(
            json_array(
                plugins.map_values(|plugin: (Seq<char>, Seq<char>, Outcome)| plugin_json(plugin)),
            ),
        ) == Some(
            Json::List(
                plugins.map_values(|plugin: (Seq<char>, Seq<char>, Outcome)| plugin_read(plugin)),
            ),
        ),
{
    let items = plugins.map_values(
        |plugin: (Seq<char>, Seq<char>, Outcome)| plugin_json(plugin),
    );
    let values = plugins.map_values(
        |plugin: (Seq<char>, Seq<char>, Outcome)| plugin_read(plugin),
    );
    assert forall|i: int| 0 <= i < items.len() implies says(#[trigger] items[i], values[i]) by {
        lemma_plugin_says(plugins[i]);
    }
    crate::json::arrays_say_their_items(items, values);
    crate::json::what_is_said_is_parsed(json_array(items), Json::List(values));
}

proof fn lemma_plugin_says(plugin: (Seq<char>, Seq<char>, Outcome))
    ensures
        says(plugin_json(plugin), plugin_read(plugin)),
{
    let (name, author, outcome) = plugin;
    crate::json::strings_say_their_text(name);
    crate::json::strings_say_their_text(author);
    crate::json::strings_say_their_text(status_of(outcome));
    crate::json::lists_say_their_texts(errors_of(outcome));
    crate::json::objects_say_their_members(
        seq![
            ("name"@, json_string(name)),
            ("author"@, json_string(author)),
            ("status"@, json_string(status_of(outcome))),
            ("errors"@, json_list(errors_of(outcome))),
        ],
        plugin_read(plugin)->Object_0,
    );
    lemma_plugin_is_object(plugin);
}

proof fn lemma_plugin_is_object(plugin: (Seq<char>, Seq<char>, Outcome))
    ensures
        plugin_json(plugin) == json_object(
            seq![
                ("name"@, json_string(plugin.0)),
                ("author"@, json_string(plugin.1)),
                ("status"@, json_string(status_of(plugin.2))),
                ("errors"@, json_list(errors_of(plugin.2))),
            ],
        ),
{
    reveal_strlit("name");
    reveal_strlit("author");
    reveal_strlit("status");
    reveal_strlit("errors");
    reveal_strlit("{\"name\":");
    reveal_strlit(",\"author\":");
    reveal_strlit(",\"status\":");
    reveal_strlit(",\"errors\":");
    reveal_strlit("}");
    crate::json::plain_texts_are_only_quoted("name"@);
    crate::json::plain_texts_are_only_quoted("author"@);
    crate::json::plain_texts_are_only_quoted("status"@);
    crate::json::plain_texts_are_only_quoted("errors"@);
    assert("{\"name\":"@ =~= seq!['{'] + (json_string("name"@) + seq![':']));
    assert(",\"author\":"@ =~= seq![','] + (json_string("author"@) + seq![':']));
    assert(",\"status\":"@ =~= seq![','] + (json_string("status"@) + seq![':']));
    assert(",\"errors\":"@ =~= seq![','] + (json_string("errors"@) + seq![':']));
    let members = seq![
        ("name"@, json_string(plugin.0)),
        ("author"@, json_string(plugin.1)),
        ("status"@, json_string(status_of(plugin.2))),
        ("errors"@, json_list(errors_of(plugin.2))),
    ];
    let written = members.map_values(
        |member: (Seq<char>, Seq<char>)| json_member(member.0, member.1),
    );
    let a = json_member("name"@, json_string(plugin.0));
    let b = json_member("author"@, json_string(plugin.1));
    let c = json_member("status"@, json_string(status_of(plugin.2)));
    let d = json_member("errors"@, json_list(errors_of(plugin.2)));
    assert(written =~= seq![a, b, c, d]);
    assert(seq![a, b, c, d].drop_first() =~= seq![b, c, d]);
    assert(seq![b, c, d].drop_first() =~= seq![c, d]);
    assert(seq![c, d].drop_first() =~= seq![d]);
    assert(join_with(seq![d], seq![',']) == d);
    assert(join_with(seq![c, d], seq![',']) == c + seq![','] + d);
    assert(join_with(seq![b, c, d], seq![',']) == b + seq![','] + (c + seq![','] + d));
    assert(join_with(written, seq![',']) == a + seq![','] + (b + seq![','] + (c + seq![','] + d)));
    assert(plugin_json(plugin) =~= json_object(members));
}

// ---------------------------------------------------------------------------
// What the report says of a plugin

/// The label of a line tells the outcome: OK just for a success, FAIL just for compile errors and
/// ERROR just for a plugin that could not be tried, each in its own colour.
pub proof fn labels_tell_the_outcome(name: Seq<char>, author: Seq<char>, outcome: Outcome)
    ensures
        line_for((name, author, outcome)).label == "OK   "@ <==> outcome is Success,
        line_for((name, author, outcome)).label == "FAIL "@ <==> outcome is Failure,
        line_for((name, author, outcome)).label == "ERROR"@ <==> outcome is Errored,
        line_for((name, author, outcome)).tone is Green <==> outcome is Success,
        line_for((name, author, outcome)).tone is Yellow <==> outcome is Failure,
        line_for((name, author, outcome)).tone is Red <==> outcome is Errored,
{
    reveal_strlit("OK   ");
    reveal_strlit("FAIL ");
    reveal_strlit("ERROR");
    assert("OK   "@[0] == 'O' && "FAIL "@[0] == 'F' && "ERROR"@[0] == 'E');
}

/// Below the line of a plugin with compile errors stands every one of them, in order, indented by
/// eight spaces, and the line says how many there are. Below other lines stands nothing.
pub proof fn lines_show_every_error(
    name: Seq<char>,
    author: Seq<char>,
    errors: Seq<Seq<char>>,
    message: Seq<char>,
    i: int,
)
    ensures
        line_for((name, author, Outcome::Failure(errors))).details.len() == errors.len(),
        0 <= i < errors.len() ==> line_for((name, author, Outcome::Failure(errors))).details[i]
            == seq![' ', ' ', ' ', ' ', ' ', ' ', ' ', ' '] + errors[i],
        exists|digits: Seq<char>|
            {
                &&& crate::text::number_of(digits) == errors.len()
                &&& line_for((name, author, Outcome::Failure(errors))).text == #[trigger] (name
                    + " ("@ + digits + " errors)"@)
            },
        line_for((name, author, Outcome::Success)).text == name,
        line_for((name, author, Outcome::Success)).details.len() == 0,
        line_for((name, author, Outcome::Errored(message))).text == name + " by "@ + author + ": "@
            + message,
        line_for((name, author, Outcome::Errored(message))).details.len() == 0,
{
    reveal_strlit("        ");
    assert("        "@ =~= seq![' ', ' ', ' ', ' ', ' ', ' ', ' ', ' ']);
    crate::text::decimals_are_read_back(errors.len());
    let digits = decimal_of(errors.len());
    assert(line_for((name, author, Outcome::Failure(errors))).text == name + " ("@ + digits
        + " errors)"@);
}

/// A line is seen as what it is, with all its details.
pub proof fn lines_are_seen_as_they_are(line: ReportLine)
    ensures
        line@.label == line.label@,
        line@.tone == line.tone,
        line@.text == line.text@,
        line@.details.len() == line.details@.len(),
        forall|i: int|
            0 <= i < line.details@.len() ==> #[trigger] line@.details[i] == line.details@[i]@,
{
}

/// A plugin counts once, as what became of it, and not as anything else.
pub proof fn a_plugin_counts_as_what_became_of_it(plugin: (Seq<char>, Seq<char>, Outcome))
    ensures
        successes(seq![plugin]) == 1 <==> plugin.2 is Success,
        successes(seq![plugin]) == 0 <==> !(plugin.2 is Success),
        failures(seq![plugin]) == 1 <==> plugin.2 is Failure,
        failures(seq![plugin]) == 0 <==> !(plugin.2 is Failure),
        breakdowns(seq![plugin]) == 1 <==> plugin.2 is Errored,
        breakdowns(seq![plugin]) == 0 <==> !(plugin.2 is Errored),
{
    reveal_with_fuel(count_of, 2);
    assert(seq![plugin].drop_last() =~= Seq::<(Seq<char>, Seq<char>, Outcome)>::empty());
}

/// The counts for two lists of plugins add up to those for both.
pub proof fn counts_of_joined_lists_add_up(
    a: Seq<(Seq<char>, Seq<char>, Outcome)>,
    b: Seq<(Seq<char>, Seq<char>, Outcome)>,
)
    ensures
        successes(a + b) == successes(a) + successes(b),
        failures(a + b) == failures(a) + failures(b),
        breakdowns(a + b) == breakdowns(a) + breakdowns(b),
{
    lemma_counts_add_up(a, b, |outcome: Outcome| outcome is Success);
    lemma_counts_add_up(a, b, |outcome: Outcome| outcome is Failure);
    lemma_counts_add_up(a, b, |outcome: Outcome| outcome is Errored);
}

proof fn lemma_counts_add_up(
    a: Seq<(Seq<char>, Seq<char>, Outcome)>,
    b: Seq<(Seq<char>, Seq<char>, Outcome)>,
    is: spec_fn(Outcome) -> bool,
)
    ensures
        count_of(a + b, is) == count_of(a, is) + count_of(b, is),
    decreases b.len(),
{
    if b.len() == 0 {
        assert(a + b =~= a);
    } else {
        assert((a + b).drop_last() =~= a + b.drop_last());
        lemma_counts_add_up(a, b.drop_last(), is);
    }
}

/// The JSON report, parsed, says of every plugin, in its place, its name, its author, what became
/// of it, and every error: none for a success, all compile errors in order for a failure, and the
/// message for a plugin that could not be tried.
pub proof fn every_plugin_is_read_back(
    plugins: Seq<(Seq<char>, Seq<char>, Outcome)>,
    i: int,
    j: int,
)
    requires
        0 <= i < plugins.len(),
    ensures
        ({
            let json = json_array(
                plugins.map_values(|plugin: (Seq<char>, Seq<char>, Outcome)| plugin_json(plugin)),
            );
            let list = parsed(json)->Some_0->List_0;
            let members = list[i]->Object_0;
            let errors = members[3].1->List_0;
            &&& parsed(json) is Some && parsed(json)->Some_0 is List
            &&& list.len() == plugins.len()
            &&& list[i] is Object
            &&& members.len() == 4
            &&& members[0] == ("name"@, Json::Text(plugins[i].0))
            &&& members[1] == ("author"@, Json::Text(plugins[i].1))
            &&& members[2].0 == "status"@
            &&& plugins[i].2 is Success ==> members[2].1 == Json::Text("ok"@)
            &&& plugins[i].2 is Failure ==> members[2].1 == Json::Text("fail"@)
            &&& plugins[i].2 is Errored ==> members[2].1 == Json::Text("error"@)
            &&& members[3].0 == "errors"@ && members[3].1 is List
            &&& plugins[i].2 is Success ==> errors.len() == 0
            &&& plugins[i].2 is Failure ==> errors.len() == plugins[i].2->Failure_0.len()
            &&& plugins[i].2 is Failure && 0 <= j < errors.len() ==> errors[j] == Json::Text(
                plugins[i].2->Failure_0[j],
            )
            &&& plugins[i].2 is Errored ==> errors.len() == 1 && errors[0] == Json::Text(
                plugins[i].2->Errored_0,
            )
        }),
{
    reports_are_read_back(plugins);
}

} // verus!
