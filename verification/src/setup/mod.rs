//! Getting everything in place that compiling needs.
//!
//! Each part is a sequence of steps. What to do next is a function of the step that has been
//! reached; what came of doing it leads to the next step. An event that does not belong to the
//! step leaves it as it is.
pub mod assembly;
pub mod compiler;
pub mod oxide;
pub mod release;

use vstd::prelude::*;

use crate::bytes::{decode_lossy, utf8_lossy_text};
use crate::path::DataPath;
use crate::text::{texts, trim, trimmed_of};

verus! {

/// How far the check of the prerequisites has come.
#[derive(Debug)]
pub enum PrereqStep {
    /// The download tool is looked for.
    Depot,
    /// .NET is run, and asked for its version.
    Dotnet,
    /// Everything is there. `stdout` is what .NET printed; with `success` that is its version. A
    /// runtime without an SDK runs too, but has no version to tell.
    Ready { success: bool, stdout: Vec<u8> },
    /// The download tool is missing.
    NoDepot,
    /// .NET is missing.
    NoDotnet,
}

/// What came of a step.
#[derive(Debug)]
pub enum PrereqEvent {
    /// Whether the download tool is where it has to be.
    DepotChecked { present: bool },
    /// .NET ran and ended with `success` or without.
    DotnetRan { success: bool, stdout: Vec<u8> },
    /// .NET could not be run.
    DotnetUnavailable,
}

/// What to do next.
#[derive(Debug)]
pub enum PrereqAction {
    /// Show `message` and look whether there is a file at `path`.
    LookForDepot { message: String, path: DataPath },
    /// Show `message` and run `program` with `argument`.
    AskVersion { message: String, program: String, argument: String },
    /// Show `messages`, one after the other: all is well.
    Finish { messages: Vec<String> },
    /// Print `lines` as an error and end the program.
    Quit { lines: Vec<String> },
}

/// The check of what has to be installed before anything else can be done.
///
/// `suffix` is what the names of programs end in on this system, and `depot_text` is the full path
/// of the download tool, as it is shown to the user.
#[derive(Debug)]
pub struct PrereqChecks {
    pub suffix: String,
    pub depot_text: String,
    pub step: PrereqStep,
}

/// The file name of the download tool.
pub open spec fn depot_name(suffix: Seq<char>) -> Seq<char> {
    "DepotDownloader"@ + suffix
}

/// Where the download tool has to be.
pub open spec fn depot_place(suffix: Seq<char>) -> Seq<Seq<char>> {
    seq!["tools"@, depot_name(suffix)]
}

/// Where the download tool has to be, on a system on which programs end in `suffix`.
pub fn depot_path(suffix: &str) -> (path: DataPath)
    ensures
        path@ == depot_place(suffix@),
        path.parts@.len() == 2,
        path.parts@[0]@ == "tools"@,
        path.parts@[1]@ == "DepotDownloader"@ + suffix@,
{
    let mut name = "DepotDownloader".to_owned();
    name.append(suffix);
    let path = DataPath::root().join("tools").join(name.as_str());
    assert(path@ =~= depot_place(suffix@));
    path
}

/// The step that `event` leads to.
pub open spec fn next_prereq(step: PrereqStep, event: PrereqEvent) -> PrereqStep {
    match (step, event) {
        (PrereqStep::Depot, PrereqEvent::DepotChecked { present }) => if present {
            PrereqStep::Dotnet
        } else {
            PrereqStep::NoDepot
        },
        (PrereqStep::Dotnet, PrereqEvent::DotnetRan { success, stdout }) => PrereqStep::Ready {
            success,
            stdout,
        },
        (PrereqStep::Dotnet, PrereqEvent::DotnetUnavailable) => PrereqStep::NoDotnet,
        _ => step,
    }
}

/// What is said when the download tool is missing at `depot`.
pub open spec fn no_depot_lines(depot: Seq<char>) -> Seq<Seq<char>> {
    seq![
        "DepotDownloader not found at "@ + depot,
        "Download it from: https://github.com/SteamRE/DepotDownloader/releases"@,
        "and place it there, then re-run."@,
    ]
}

/// What is said when .NET is missing.
pub open spec fn no_dotnet_lines() -> Seq<Seq<char>> {
    seq![" .NET runtime not found. Install it from https://dotnet.microsoft.com/download"@]
}

/// The version of .NET, where it printed `stdout` and ended with `success` or without: what it
/// printed, without the white space around it. Without success no version is known.
pub open spec fn dotnet_version(success: bool, stdout: Seq<u8>) -> Option<Seq<char>> {
    if success {
        Some(trimmed_of(utf8_lossy_text(stdout)))
    } else {
        None
    }
}

/// What is said when all is well.
pub open spec fn ready_messages(version: Option<Seq<char>>) -> Seq<Seq<char>> {
    seq![
        match version {
            Some(text) => ".NET "@ + text + " detected"@,
            None => ".NET runtime detected"@,
        },
        "Prerequisites working!"@,
    ]
}

/// Starts the check of the prerequisites.
pub fn prereq_checks(suffix: String, depot_text: String) -> (checks: PrereqChecks)
    ensures
        checks.suffix == suffix,
        checks.depot_text == depot_text,
        checks.step == PrereqStep::Depot,
{
    PrereqChecks { suffix, depot_text, step: PrereqStep::Depot }
}

impl PrereqChecks {
    /// Takes in what came of the step.
    pub fn advance(self, event: PrereqEvent) -> (next: PrereqChecks)
        ensures
            next.suffix == self.suffix,
            next.depot_text == self.depot_text,
            next.step == next_prereq(self.step, event),
            self.step is Depot && event is DepotChecked ==> next.step == if event->present {
                PrereqStep::Dotnet
            } else {
                PrereqStep::NoDepot
            },
            self.step is Dotnet && event is DotnetRan ==> next.step == (PrereqStep::Ready {
                success: event->DotnetRan_success,
                stdout: event->DotnetRan_stdout,
            }),
            self.step is Dotnet && event is DotnetUnavailable ==> next.step is NoDotnet,
            !(self.step is Depot && event is DepotChecked) && !(self.step is Dotnet && !(event
                is DepotChecked)) ==> next.step == self.step,
    {
        let step = match (self.step, event) {
            (PrereqStep::Depot, PrereqEvent::DepotChecked { present }) => if present {
                PrereqStep::Dotnet
            } else {
                PrereqStep::NoDepot
            },
            (PrereqStep::Dotnet, PrereqEvent::DotnetRan { success, stdout }) => PrereqStep::Ready {
                success,
                stdout,
            },
            (PrereqStep::Dotnet, PrereqEvent::DotnetUnavailable) => PrereqStep::NoDotnet,
            (step, _) => step,
        };
        PrereqChecks { suffix: self.suffix, depot_text: self.depot_text, step }
    }

    /// What to do next.
    pub fn action(&self) -> (action: PrereqAction)
        ensures
            match self.step {
                PrereqStep::Depot => {
                    &&& action matches PrereqAction::LookForDepot { message, path }
                    &&& message@ == "Checking prerequisites..."@
                    &&& path@ == depot_place(self.suffix@)
                },
                PrereqStep::Dotnet => {
                    &&& action matches PrereqAction::AskVersion { message, program, argument }
                    &&& message@ == "DepotDownloader is installed"@
                    &&& program@ == "dotnet"@
                    &&& argument@ == "--version"@
                },
                PrereqStep::Ready { success, stdout } => {
                    &&& action matches PrereqAction::Finish { messages }
                    &&& texts(messages@) == ready_messages(dotnet_version(success, stdout@))
                },
                PrereqStep::NoDepot => {
                    &&& action matches PrereqAction::Quit { lines }
                    &&& texts(lines@) == no_depot_lines(self.depot_text@)
                },
                PrereqStep::NoDotnet => {
                    &&& action matches PrereqAction::Quit { lines }
                    &&& texts(lines@) == no_dotnet_lines()
                },
            },
            self.step is Depot ==> action is LookForDepot && action->path@ == seq![
                "tools"@,
                "DepotDownloader"@ + self.suffix@,
            ],
            self.step matches PrereqStep::Ready { success, stdout } ==> {
                &&& action matches PrereqAction::Finish { messages }
                &&& messages@.len() == 2
                &&& success ==> messages@[0]@ == ".NET "@ + trimmed_of(utf8_lossy_text(stdout@))
                    + " detected"@
                &&& !success ==> messages@[0]@ == ".NET runtime detected"@
                &&& messages@[1]@ == "Prerequisites working!"@
            },
            self.step is NoDepot ==> {
                &&& action matches PrereqAction::Quit { lines }
                &&& lines@.len() == 3
                &&& lines@[0]@ == "DepotDownloader not found at "@ + self.depot_text@
                &&& lines@[1]@
                    == "Download it from: https://github.com/SteamRE/DepotDownloader/releases"@
                &&& lines@[2]@ == "and place it there, then re-run."@
            },
            self.step is NoDotnet ==> {
                &&& action matches PrereqAction::Quit { lines }
                &&& lines@.len() == 1
                &&& lines@[0]@
                    == " .NET runtime not found. Install it from https://dotnet.microsoft.com/download"@
            },
    {
        match &self.step {
            PrereqStep::Depot => PrereqAction::LookForDepot {
                message: "Checking prerequisites...".to_owned(),
                path: depot_path(self.suffix.as_str()),
            },
            PrereqStep::Dotnet => PrereqAction::AskVersion {
                message: "DepotDownloader is installed".to_owned(),
                program: "dotnet".to_owned(),
                argument: "--version".to_owned(),
            },
            PrereqStep::Ready { success, stdout } => {
                let found = if *success {
                    let printed = decode_lossy(stdout.as_slice());
                    let version = trim(printed.as_str());
                    let mut found = ".NET ".to_owned();
                    found.append(version.as_str());
                    found.append(" detected");
                    found
                } else {
                    ".NET runtime detected".to_owned()
                };
                let messages = vec![found, "Prerequisites working!".to_owned()];
                assert(texts(messages@) =~= ready_messages(dotnet_version(*success, stdout@)));
                PrereqAction::Finish { messages }
            },
            PrereqStep::NoDepot => {
                let mut missing = "DepotDownloader not found at ".to_owned();
                missing.append(self.depot_text.as_str());
                let lines = vec![
                    missing,
                    "Download it from: https://github.com/SteamRE/DepotDownloader/releases".to_owned(),
                    "and place it there, then re-run.".to_owned(),
                ];
                assert(texts(lines@) =~= no_depot_lines(self.depot_text@));
                PrereqAction::Quit { lines }
            },
            PrereqStep::NoDotnet => {
                let lines = vec![
                    " .NET runtime not found. Install it from https://dotnet.microsoft.com/download".to_owned(),
                ];
                assert(texts(lines@) =~= no_dotnet_lines());
                PrereqAction::Quit { lines }
            },
        }
    }
}

/// The check came to an end.
pub open spec fn prereqs_decided(step: PrereqStep) -> bool {
    step is Ready || step is NoDepot || step is NoDotnet
}

/// The step that is reached from `step` by `events`, one after the other.
pub open spec fn after_prereqs(step: PrereqStep, events: Seq<PrereqEvent>) -> PrereqStep
    decreases events.len(),
{
    if events.len() == 0 {
        step
    } else {
        next_prereq(after_prereqs(step, events.drop_last()), events.last())
    }
}

/// What has been decided stays decided.
pub proof fn decided_prereqs_stay(step: PrereqStep, events: Seq<PrereqEvent>)
    requires
        prereqs_decided(step),
    ensures
        after_prereqs(step, events) == step,
    decreases events.len(),
{
    if events.len() > 0 {
        decided_prereqs_stay(step, events.drop_last());
    }
}

/// All is well only where the download tool was found and .NET could be run.
pub proof fn ready_needs_both(events: Seq<PrereqEvent>)
    requires
        after_prereqs(PrereqStep::Depot, events) is Ready,
    ensures
        events.contains(PrereqEvent::DepotChecked { present: true }),
        exists|success: bool, stdout: Vec<u8>|
            {
                &&& #[trigger] events.contains(PrereqEvent::DotnetRan { success, stdout })
                &&& after_prereqs(PrereqStep::Depot, events) == (PrereqStep::Ready {
                    success,
                    stdout,
                })
            },
    decreases events.len(),
{
    let before = events.drop_last();
    let step = after_prereqs(PrereqStep::Depot, before);
    lemma_contains_more(before, events);
    if step is Ready {
        ready_needs_both(before);
    } else {
        assert(events[events.len() - 1] == events.last());
        lemma_dotnet_needs_depot(before);
        assert(events.contains(events.last()));
    }
}

/// A runtime is all that is needed of .NET: with the download tool there, the check passes as soon
/// as .NET runs, even if it ends without success because there is no SDK.
pub proof fn a_runtime_is_enough(success: bool, stdout: Vec<u8>)
    ensures
        after_prereqs(
            PrereqStep::Depot,
            seq![
                PrereqEvent::DepotChecked { present: true },
                PrereqEvent::DotnetRan { success, stdout },
            ],
        ) == (PrereqStep::Ready { success, stdout }),
{
    let found = seq![PrereqEvent::DepotChecked { present: true }];
    let both = found.push(PrereqEvent::DotnetRan { success, stdout });
    assert(found.drop_last() =~= Seq::<PrereqEvent>::empty());
    assert(after_prereqs(PrereqStep::Depot, found.drop_last()) == PrereqStep::Depot);
    assert(found.last() == (PrereqEvent::DepotChecked { present: true }));
    assert(after_prereqs(PrereqStep::Depot, found) is Dotnet);
    assert(both.drop_last() =~= found);
    assert(both =~= seq![
        PrereqEvent::DepotChecked { present: true },
        PrereqEvent::DotnetRan { success, stdout },
    ]);
}

proof fn lemma_dotnet_needs_depot(events: Seq<PrereqEvent>)
    requires
        after_prereqs(PrereqStep::Depot, events) is Dotnet,
    ensures
        events.contains(PrereqEvent::DepotChecked { present: true }),
    decreases events.len(),
{
    let before = events.drop_last();
    if after_prereqs(PrereqStep::Depot, before) is Dotnet {
        lemma_dotnet_needs_depot(before);
        lemma_contains_more(before, events);
    } else {
        assert(events[events.len() - 1] == events.last());
    }
}

/// What happened before the last event has happened still.
proof fn lemma_contains_more<T>(before: Seq<T>, events: Seq<T>)
    requires
        events.len() > 0,
        before == events.drop_last(),
    ensures
        forall|event: T| #[trigger] before.contains(event) ==> events.contains(event),
{
    assert forall|event: T| #[trigger] before.contains(event) implies events.contains(event) by {
        let k = choose|k: int| 0 <= k < before.len() && before[k] == event;
        assert(events[k] == event);
    }
}

/// The download tool is looked for in the folder of the tools, under its name and whatever programs
/// end in.
pub proof fn the_download_tool_is_among_the_tools(suffix: Seq<char>)
    ensures
        depot_place(suffix).len() == 2,
        depot_place(suffix)[0] == "tools"@,
        depot_place(suffix)[1] == "DepotDownloader"@ + suffix,
{
}

/// A version that .NET tells is shown without the white space around it, just where .NET ended with
/// success; without success none is shown, whatever was printed.
pub proof fn versions_are_shown_trimmed(
    stdout: Seq<u8>,
    before: Seq<char>,
    version: Seq<char>,
    behind: Seq<char>,
)
    requires
        utf8_lossy_text(stdout) == before + version + behind,
        forall|k: int| 0 <= k < before.len() ==> crate::text::white_space(#[trigger] before[k]),
        forall|k: int| 0 <= k < behind.len() ==> crate::text::white_space(#[trigger] behind[k]),
        version.len() > 0 ==> !crate::text::white_space(version[0]) && !crate::text::white_space(
            version.last(),
        ),
    ensures
        ready_messages(dotnet_version(true, stdout)) == seq![
            ".NET "@ + version + " detected"@,
            "Prerequisites working!"@,
        ],
        ready_messages(dotnet_version(false, stdout)) == seq![
            ".NET runtime detected"@,
            "Prerequisites working!"@,
        ],
{
    crate::text::white_space_around_is_trimmed(before, version, behind);
}

/// Each answer decides the check: without the download tool it ends there, without .NET it ends
/// there, and otherwise it goes on or is done.
pub proof fn each_answer_decides(present: bool, success: bool, stdout: Vec<u8>)
    ensures
        next_prereq(PrereqStep::Depot, PrereqEvent::DepotChecked { present }) is Dotnet <==> present,
        next_prereq(PrereqStep::Depot, PrereqEvent::DepotChecked { present }) is NoDepot
            <==> !present,
        next_prereq(PrereqStep::Dotnet, PrereqEvent::DotnetRan { success, stdout }) is Ready,
        next_prereq(PrereqStep::Dotnet, PrereqEvent::DotnetUnavailable) is NoDotnet,
{
}

} // verus!
