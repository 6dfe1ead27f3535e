//! The assemblies of the game, which plugins are compiled against.
use vstd::prelude::*;
use vstd::utf8::*;

use crate::branch::Branch;
use crate::path::{
    has_extension, library_dir, library_place, name_bytes, named_with_extension, stem_text,
    stem_text_of, DataPath,
};
use crate::setup::{depot_path, depot_place};
use crate::text::{split, split_at_each, texts};

verus! {

// ---------------------------------------------------------------------------
// The installed manifest

/// The entry at index `i` is the first manifest, and the listing could be read up to it. An entry
/// that could not be read is `None`; one that could holds its file name.
pub open spec fn first_manifest_at(entries: Seq<Option<Option<Vec<u8>>>>, i: int) -> bool {
    &&& 0 <= i < entries.len()
    &&& entries[i] is Some
    &&& named_with_extension(name_bytes(entries[i]->0), "manifest"@)
    &&& forall|k: int|
        0 <= k < i ==> (#[trigger] entries[k]) is Some && !named_with_extension(
            name_bytes(entries[k]->0),
            "manifest"@,
        )
}

/// The manifest that the name of a manifest file holds: what follows the first underscore of its
/// stem, up to the next one.
pub open spec fn manifest_in_name(name: Option<Seq<u8>>) -> Option<Seq<char>> {
    match stem_text_of(name) {
        Some(stem) => {
            let fields = split_at_each(stem, '_');
            if fields.len() > 1 {
                Some(fields[1])
            } else {
                None
            }
        },
        None => None,
    }
}

/// The manifest of the installed assemblies, according to the first manifest file in the listing
/// of the download tool's state. Nothing is known where there is no listing, where there is no
/// manifest file, or where an entry before it could not be read.
pub open spec fn manifest_of(listing: Option<Vec<Option<Option<Vec<u8>>>>>) -> Option<Seq<char>> {
    match listing {
        None => None,
        Some(entries) => if exists|i: int| first_manifest_at(entries@, i) {
            let i = choose|i: int| first_manifest_at(entries@, i);
            manifest_in_name(name_bytes(entries@[i]->0))
        } else {
            None
        },
    }
}

/// A text that may be missing, by its characters.
pub open spec fn text_of(text: Option<String>) -> Option<Seq<char>> {
    match text {
        Some(t) => Some(t@),
        None => None,
    }
}

/// There is at most one first manifest.
proof fn lemma_first_manifest_once(entries: Seq<Option<Option<Vec<u8>>>>, i: int)
    requires
        first_manifest_at(entries, i),
    ensures
        i == choose|j: int| first_manifest_at(entries, j),
{
    let j = choose|j: int| first_manifest_at(entries, j);
    assert(first_manifest_at(entries, j));
    if i < j {
        assert(entries[i] is Some);
    } else if j < i {
        assert(entries[j] is Some);
    }
}

/// The manifest of the installed assemblies, from the listing of the download tool's state.
pub fn installed_manifest(listing: &Option<Vec<Option<Option<Vec<u8>>>>>) -> (manifest: Option<
    String,
>)
    ensures
        text_of(manifest) == manifest_of(*listing),
{
    match listing {
        None => None,
        Some(entries) => {
            let mut i: usize = 0;
            while i < entries.len()
                invariant
                    i <= entries@.len(),
                    listing == Some(*entries),
                    forall|k: int|
                        0 <= k < i ==> (#[trigger] entries@[k]) is Some && !named_with_extension(
                            name_bytes(entries@[k]->0),
                            "manifest"@,
                        ),
                decreases entries@.len() - i,
            {
                match &entries[i] {
                    None => {
                        assert forall|j: int| !first_manifest_at(entries@, j) by {
                            if j > i {
                                assert(entries@[i as int] is None);
                            }
                        }
                        return None;
                    },
                    Some(name) => {
                        if has_extension(name, "manifest") {
                            proof {
                                assert(first_manifest_at(entries@, i as int));
                                lemma_first_manifest_once(entries@, i as int);
                            }
                            return manifest_from_name(name);
                        }
                    },
                }
                i += 1;
            }
            None
        },
    }
}

/// The manifest that the name of a manifest file holds.
fn manifest_from_name(name: &Option<Vec<u8>>) -> (manifest: Option<String>)
    ensures
        text_of(manifest) == manifest_in_name(name_bytes(*name)),
{
    match stem_text(name) {
        None => None,
        Some(stem) => {
            let fields = split(stem.as_str(), '_');
            let ghost views = texts(fields@);
            if fields.len() > 1 {
                assert(views[1] == fields@[1]@);
                Some(fields[1].clone())
            } else {
                None
            }
        },
    }
}

// ---------------------------------------------------------------------------
// Installing

/// How far the installation of the assemblies has come.
#[derive(Debug, Clone, Copy, PartialEq, Eq, Structural)]
pub enum AssemblyStep {
    /// The assemblies are looked for.
    Checking,
    /// They are there; the state of the download tool is listed.
    Listing,
    /// They are missing; the user is asked whether to download them.
    Asking,
    /// The download is prepared.
    Preparing,
    /// The download runs.
    Running,
    /// They were there already.
    Present,
    /// They have been downloaded.
    Installed,
    /// The user did not want them.
    Declined,
    /// The download failed.
    Failed,
}

/// What came of a step.
#[derive(Debug)]
pub enum AssemblyEvent {
    /// Whether the assemblies are there.
    Checked { present: bool },
    /// The listing of the download tool's state, if there is one: for each entry that could be
    /// read its file name.
    Listed { listing: Option<Vec<Option<Option<Vec<u8>>>>> },
    /// What the user answered.
    Answered { confirmed: bool },
    /// The download has been prepared.
    Prepared,
    /// The download tool printed a line.
    Printed { line: String },
    /// The download tool ended with `success` or without.
    Exited { success: bool },
}

/// An argument of a command: a text, or the path of a place below the data folder.
#[derive(Debug)]
pub enum CommandArg {
    Text(String),
    Place(DataPath),
}

/// A `CommandArg` by the texts that it holds.
pub enum ArgView {
    Text(Seq<char>),
    Place(Seq<Seq<char>>),
}

impl View for CommandArg {
    type V = ArgView;

    open spec fn view(&self) -> ArgView {
        match *self {
            CommandArg::Text(text) => ArgView::Text(text@),
            CommandArg::Place(path) => ArgView::Place(path@),
        }
    }
}

/// What to do next.
#[derive(Debug)]
pub enum AssemblyAction {
    /// Show `message` and look whether there is a file at `path`.
    Check { message: String, path: DataPath },
    /// List the folder at `path`.
    List { path: DataPath },
    /// Ask the user `prompt`, with yes as the default.
    Ask { prompt: String },
    /// Show `message` and write `contents` to the file at `path`.
    Write { message: String, path: DataPath, contents: String },
    /// Show `message` and run `program` with `args`; show each line that it prints.
    Run { message: String, program: DataPath, args: Vec<CommandArg> },
    /// Show `message`: the assemblies are there.
    Finish { message: String },
    /// Print `lines` and give up with `error`.
    Fail { lines: Vec<String>, error: String },
}

/// The installation of the assemblies of `branch`. With `yes` the user is not asked. `suffix` is
/// what the names of programs end in on this system.
#[derive(Debug)]
pub struct AssemblySetup {
    pub branch: Branch,
    pub yes: bool,
    pub suffix: String,
    pub step: AssemblyStep,
    /// The manifest of the assemblies that were there already.
    pub manifest: Option<String>,
    /// What the download tool printed.
    pub log: Vec<String>,
}

/// Where the game's own assembly is.
pub open spec fn assembly_place(branch: Branch) -> Seq<Seq<char>> {
    library_place(branch).push("RustDedicated_Data/Managed/Assembly-CSharp.dll"@)
}

/// Where the download tool keeps its state.
pub open spec fn state_place(branch: Branch) -> Seq<Seq<char>> {
    library_place(branch).push(".DepotDownloader"@)
}

/// Where the list of the files to download is.
pub open spec fn filelist_place() -> Seq<Seq<char>> {
    seq!["tools"@, "managed.filelist"@]
}

/// The arguments of the download tool for the assemblies of `branch`.
pub open spec fn download_args(branch: Branch) -> Seq<ArgView> {
    let common = seq![
        ArgView::Text("-app"@),
        ArgView::Text("258550"@),
        ArgView::Text("-depot"@),
        ArgView::Text("258551"@),
        ArgView::Text("-dir"@),
        ArgView::Place(library_place(branch)),
        ArgView::Text("-filelist"@),
        ArgView::Place(filelist_place()),
    ];
    match branch {
        Branch::Release => common,
        Branch::Staging => common + seq![ArgView::Text("-branch"@), ArgView::Text("staging"@)],
    }
}

/// What is said when the assemblies were there already.
pub open spec fn present_message(manifest: Option<Seq<char>>) -> Seq<char> {
    match manifest {
        Some(text) => "Libraries installed (manifest "@ + text + ")"@,
        None => "Libraries installed"@,
    }
}

/// Where the list of the files to download is.
fn filelist_path() -> (path: DataPath)
    ensures
        path@ == filelist_place(),
{
    let path = DataPath::root().join("tools").join("managed.filelist");
    assert(path@ =~= filelist_place());
    path
}

/// The arguments of the download tool for the assemblies of `branch`.
pub fn download_arguments(branch: &Branch) -> (args: Vec<CommandArg>)
    ensures
        args@.map_values(|arg: CommandArg| arg@) == download_args(*branch),
        branch is Release ==> args@.len() == 8,
        branch is Staging ==> args@.len() == 10,
        args@[0]@ == ArgView::Text("-app"@) && args@[1]@ == ArgView::Text("258550"@),
        args@[2]@ == ArgView::Text("-depot"@) && args@[3]@ == ArgView::Text("258551"@),
        args@[4]@ == ArgView::Text("-dir"@),
        branch is Release ==> args@[5]@ == ArgView::Place(seq!["release"@]),
        branch is Staging ==> args@[5]@ == ArgView::Place(seq!["staging"@]),
        args@[6]@ == ArgView::Text("-filelist"@),
        args@[7]@ == ArgView::Place(seq!["tools"@, "managed.filelist"@]),
        branch is Staging ==> args@[8]@ == ArgView::Text("-branch"@) && args@[9]@ == ArgView::Text(
            "staging"@,
        ),
{
    let mut args: Vec<CommandArg> = vec![
        CommandArg::Text("-app".to_owned()),
        CommandArg::Text("258550".to_owned()),
        CommandArg::Text("-depot".to_owned()),
        CommandArg::Text("258551".to_owned()),
        CommandArg::Text("-dir".to_owned()),
        CommandArg::Place(library_dir(branch)),
        CommandArg::Text("-filelist".to_owned()),
        CommandArg::Place(filelist_path()),
    ];
    if let Branch::Staging = branch {
        args.push(CommandArg::Text("-branch".to_owned()));
        args.push(CommandArg::Text("staging".to_owned()));
    }
    assert(args@.map_values(|arg: CommandArg| arg@) =~= download_args(*branch));
    assert(library_place(*branch) =~= seq![branch.folder()]);
    args
}

/// The step that `event` leads to. With `yes` the user is not asked.
pub open spec fn next_assembly_step(step: AssemblyStep, yes: bool, event: AssemblyEvent) -> AssemblyStep {
    match (step, event) {
        (AssemblyStep::Checking, AssemblyEvent::Checked { present }) => if present {
            AssemblyStep::Listing
        } else if yes {
            AssemblyStep::Preparing
        } else {
            AssemblyStep::Asking
        },
        (AssemblyStep::Listing, AssemblyEvent::Listed { .. }) => AssemblyStep::Present,
        (AssemblyStep::Asking, AssemblyEvent::Answered { confirmed }) => if confirmed {
            AssemblyStep::Preparing
        } else {
            AssemblyStep::Declined
        },
        (AssemblyStep::Preparing, AssemblyEvent::Prepared) => AssemblyStep::Running,
        (AssemblyStep::Running, AssemblyEvent::Exited { success }) => if success {
            AssemblyStep::Installed
        } else {
            AssemblyStep::Failed
        },
        _ => step,
    }
}

/// What has been printed once `event` has happened.
pub open spec fn next_log(step: AssemblyStep, log: Seq<Seq<char>>, event: AssemblyEvent) -> Seq<
    Seq<char>,
> {
    match (step, event) {
        (AssemblyStep::Running, AssemblyEvent::Printed { line }) => log.push(line@),
        _ => log,
    }
}

/// The manifest that is known once `event` has happened.
pub open spec fn next_manifest(
    step: AssemblyStep,
    manifest: Option<Seq<char>>,
    event: AssemblyEvent,
) -> Option<Seq<char>> {
    match (step, event) {
        (AssemblyStep::Listing, AssemblyEvent::Listed { listing }) => manifest_of(listing),
        _ => manifest,
    }
}

/// Starts the installation of the assemblies of `branch`.
pub fn ensure_assemblies(branch: &Branch, yes: bool, suffix: String) -> (setup: AssemblySetup)
    ensures
        setup.branch == *branch,
        setup.yes == yes,
        setup.suffix == suffix,
        setup.step == AssemblyStep::Checking,
        setup.manifest is None,
        texts(setup.log@) == Seq::<Seq<char>>::empty(),
{
    let log: Vec<String> = Vec::new();
    assert(texts(log@) =~= Seq::<Seq<char>>::empty());
    AssemblySetup {
        branch: *branch,
        yes,
        suffix,
        step: AssemblyStep::Checking,
        manifest: None,
        log,
    }
}

impl AssemblySetup {
    /// Takes in what came of the step.
    pub fn advance(&mut self, event: AssemblyEvent)
        ensures
            final(self).branch == old(self).branch,
            final(self).yes == old(self).yes,
            final(self).suffix == old(self).suffix,
            final(self).step == next_assembly_step(old(self).step, old(self).yes, event),
            texts(final(self).log@) == next_log(old(self).step, texts(old(self).log@), event),
            text_of(final(self).manifest) == next_manifest(
                old(self).step,
                text_of(old(self).manifest),
                event,
            ),
            old(self).step is Checking && event is Checked && event->present ==> final(self).step
                is Listing,
            old(self).step is Checking && event is Checked && !event->present ==> if old(
                self,
            ).yes {
                final(self).step is Preparing
            } else {
                final(self).step is Asking
            },
            old(self).step is Listing && event is Listed ==> final(self).step is Present,
            old(self).step is Asking && event is Answered ==> if event->confirmed {
                final(self).step is Preparing
            } else {
                final(self).step is Declined
            },
            old(self).step is Preparing && event is Prepared ==> final(self).step is Running,
            old(self).step is Running && event is Exited ==> if event->success {
                final(self).step is Installed
            } else {
                final(self).step is Failed
            },
            !(old(self).step is Checking && event is Checked) && !(old(self).step is Listing
                && event is Listed) && !(old(self).step is Asking && event is Answered) && !(old(
                self,
            ).step is Preparing && event is Prepared) && !(old(self).step is Running && event
                is Exited) ==> final(self).step == old(self).step,
            old(self).step is Running && event is Printed ==> final(self).log@ == old(
                self,
            ).log@.push(event->line),
            !(old(self).step is Running && event is Printed) ==> final(self).log@ == old(
                self,
            ).log@,
            old(self).step is Listing && event is Listed ==> text_of(final(self).manifest)
                == manifest_of(event->listing),
            !(old(self).step is Listing && event is Listed) ==> final(self).manifest == old(
                self,
            ).manifest,
    {
        let ghost before = self.log@;
        match (self.step, event) {
            (AssemblyStep::Checking, AssemblyEvent::Checked { present }) => {
                self.step = if present {
                    AssemblyStep::Listing
                } else if self.yes {
                    AssemblyStep::Preparing
                } else {
                    AssemblyStep::Asking
                };
            },
            (AssemblyStep::Listing, AssemblyEvent::Listed { listing }) => {
                self.manifest = installed_manifest(&listing);
                self.step = AssemblyStep::Present;
            },
            (AssemblyStep::Asking, AssemblyEvent::Answered { confirmed }) => {
                self.step = if confirmed {
                    AssemblyStep::Preparing
                } else {
                    AssemblyStep::Declined
                };
            },
            (AssemblyStep::Preparing, AssemblyEvent::Prepared) => {
                self.step = AssemblyStep::Running;
            },
            (AssemblyStep::Running, AssemblyEvent::Printed { line }) => {
                self.log.push(line);
                assert(texts(self.log@) =~= texts(before).push(line@));
            },
            (AssemblyStep::Running, AssemblyEvent::Exited { success }) => {
                self.step = if success {
                    AssemblyStep::Installed
                } else {
                    AssemblyStep::Failed
                };
            },
            _ => {},
        }
    }

    /// What to do next.
    pub fn action(&self) -> (action: AssemblyAction)
        ensures
            match self.step {
                AssemblyStep::Checking => {
                    &&& action matches AssemblyAction::Check { message, path }
                    &&& message@ == "Checking for Rust Assemblies..."@
                    &&& path@ == assembly_place(self.branch)
                },
                AssemblyStep::Listing => {
                    &&& action matches AssemblyAction::List { path }
                    &&& path@ == state_place(self.branch)
                },
                AssemblyStep::Asking => {
                    &&& action matches AssemblyAction::Ask { prompt }
                    &&& prompt@
                        == "Rust reference assemblies are missing. Would you like to download it now?"@
                },
                AssemblyStep::Preparing => {
                    &&& action matches AssemblyAction::Write { message, path, contents }
                    &&& message@ == "Libraries missing. Installing now."@
                    &&& path@ == filelist_place()
                    &&& contents@ == "regex:^RustDedicated_Data/Managed/.*\\.dll$"@
                },
                AssemblyStep::Running => {
                    &&& action matches AssemblyAction::Run { message, program, args }
                    &&& message@ == "Downloading Rust Assemblies..."@
                    &&& program@ == depot_place(self.suffix@)
                    &&& args@.map_values(|arg: CommandArg| arg@) == download_args(self.branch)
                },
                AssemblyStep::Present => {
                    &&& action matches AssemblyAction::Finish { message }
                    &&& message@ == present_message(text_of(self.manifest))
                },
                AssemblyStep::Installed => {
                    &&& action matches AssemblyAction::Finish { message }
                    &&& message@ == "Rust assemblies installed successfully"@
                },
                AssemblyStep::Declined => {
                    &&& action matches AssemblyAction::Fail { lines, error }
                    &&& lines@.len() == 0
                    &&& error@ == "download declined by user"@
                },
                AssemblyStep::Failed => {
                    &&& action matches AssemblyAction::Fail { lines, error }
                    &&& texts(lines@) == texts(self.log@)
                    &&& error@ == "DepotDownloader failed"@
                },
            },
            ({
                let home = if self.branch is Staging {
                    "staging"@
                } else {
                    "release"@
                };
                match self.step {
                    AssemblyStep::Checking => {
                        &&& action matches AssemblyAction::Check { path, .. }
                        &&& path@ == seq![home, "RustDedicated_Data/Managed/Assembly-CSharp.dll"@]
                    },
                    AssemblyStep::Listing => {
                        &&& action matches AssemblyAction::List { path }
                        &&& path@ == seq![home, ".DepotDownloader"@]
                    },
                    AssemblyStep::Asking => action is Ask,
                    AssemblyStep::Preparing => {
                        &&& action matches AssemblyAction::Write { path, contents, .. }
                        &&& path@ == seq!["tools"@, "managed.filelist"@]
                        &&& contents@ == "regex:^RustDedicated_Data/Managed/.*\\.dll$"@
                    },
                    AssemblyStep::Running => {
                        &&& action matches AssemblyAction::Run { program, args, .. }
                        &&& program@ == seq!["tools"@, "DepotDownloader"@ + self.suffix@]
                        &&& args@.len() == if self.branch is Staging {
                            10int
                        } else {
                            8int
                        }
                        &&& args@[0]@ == ArgView::Text("-app"@)
                        &&& args@[1]@ == ArgView::Text("258550"@)
                        &&& args@[2]@ == ArgView::Text("-depot"@)
                        &&& args@[3]@ == ArgView::Text("258551"@)
                        &&& args@[4]@ == ArgView::Text("-dir"@)
                        &&& args@[5]@ == ArgView::Place(seq![home])
                        &&& args@[6]@ == ArgView::Text("-filelist"@)
                        &&& args@[7]@ == ArgView::Place(seq!["tools"@, "managed.filelist"@])
                        &&& self.branch is Staging ==> args@[8]@ == ArgView::Text("-branch"@)
                            && args@[9]@ == ArgView::Text("staging"@)
                    },
                    AssemblyStep::Present => {
                        &&& action matches AssemblyAction::Finish { message }
                        &&& self.manifest is None ==> message@ == "Libraries installed"@
                        &&& self.manifest is Some ==> message@ == "Libraries installed (manifest "@
                            + self.manifest->0@ + ")"@
                    },
                    AssemblyStep::Installed => action is Finish,
                    AssemblyStep::Declined => action is Fail,
                    AssemblyStep::Failed => {
                        &&& action matches AssemblyAction::Fail { lines, .. }
                        &&& lines@.len() == self.log@.len()
                        &&& forall|i: int|
                            0 <= i < self.log@.len() ==> (#[trigger] lines@[i])@ == self.log@[i]@
                    },
                }
            }),
    {
        match self.step {
            AssemblyStep::Checking => {
                let path = library_dir(&self.branch).join(
                    "RustDedicated_Data/Managed/Assembly-CSharp.dll",
                );
                AssemblyAction::Check {
                    message: "Checking for Rust Assemblies...".to_owned(),
                    path,
                }
            },
            AssemblyStep::Listing => {
                AssemblyAction::List { path: library_dir(&self.branch).join(".DepotDownloader") }
            },
            AssemblyStep::Asking => AssemblyAction::Ask {
                prompt: "Rust reference assemblies are missing. Would you like to download it now?".to_owned(),
            },
            AssemblyStep::Preparing => AssemblyAction::Write {
                message: "Libraries missing. Installing now.".to_owned(),
                path: filelist_path(),
                contents: "regex:^RustDedicated_Data/Managed/.*\\.dll$".to_owned(),
            },
            AssemblyStep::Running => AssemblyAction::Run {
                message: "Downloading Rust Assemblies...".to_owned(),
                program: depot_path(self.suffix.as_str()),
                args: download_arguments(&self.branch),
            },
            AssemblyStep::Present => {
                let message = match &self.manifest {
                    Some(text) => {
                        let mut message = "Libraries installed (manifest ".to_owned();
                        message.append(text.as_str());
                        message.append(")");
                        message
                    },
                    None => "Libraries installed".to_owned(),
                };
                AssemblyAction::Finish { message }
            },
            AssemblyStep::Installed => AssemblyAction::Finish {
                message: "Rust assemblies installed successfully".to_owned(),
            },
            AssemblyStep::Declined => AssemblyAction::Fail {
                lines: Vec::new(),
                error: "download declined by user".to_owned(),
            },
            AssemblyStep::Failed => AssemblyAction::Fail {
                lines: crate::text::copy_texts(self.log.as_slice()),
                error: "DepotDownloader failed".to_owned(),
            },
        }
    }
}

// ---------------------------------------------------------------------------
// What every run keeps

/// The step that is reached from `step` by `events`, one after the other.
pub open spec fn after_assembly_events(
    step: AssemblyStep,
    yes: bool,
    events: Seq<AssemblyEvent>,
) -> AssemblyStep
    decreases events.len(),
{
    if events.len() == 0 {
        step
    } else {
        next_assembly_step(
            after_assembly_events(step, yes, events.drop_last()),
            yes,
            events.last(),
        )
    }
}

/// What has been printed after `events`, one after the other, from `step` on.
pub open spec fn log_after(step: AssemblyStep, yes: bool, events: Seq<AssemblyEvent>) -> Seq<
    Seq<char>,
>
    decreases events.len(),
{
    if events.len() == 0 {
        seq![]
    } else {
        next_log(
            after_assembly_events(step, yes, events.drop_last()),
            log_after(step, yes, events.drop_last()),
            events.last(),
        )
    }
}

/// The installation came to an end.
pub open spec fn assemblies_decided(step: AssemblyStep) -> bool {
    step is Present || step is Installed || step is Declined || step is Failed
}

/// What has been decided stays decided.
pub proof fn decided_assemblies_stay(step: AssemblyStep, yes: bool, events: Seq<AssemblyEvent>)
    requires
        assemblies_decided(step),
    ensures
        after_assembly_events(step, yes, events) == step,
    decreases events.len(),
{
    if events.len() > 0 {
        decided_assemblies_stay(step, yes, events.drop_last());
    }
}

/// A download is under way or over.
pub open spec fn downloading(step: AssemblyStep) -> bool {
    step is Preparing || step is Running || step is Installed || step is Failed
}

/// Nothing is downloaded unless the assemblies are missing and the user agreed, by `yes` or by the
/// answer to the question.
pub proof fn downloads_need_consent(yes: bool, events: Seq<AssemblyEvent>)
    requires
        downloading(after_assembly_events(AssemblyStep::Checking, yes, events)),
    ensures
        events.contains(AssemblyEvent::Checked { present: false }),
        yes || events.contains(AssemblyEvent::Answered { confirmed: true }),
    decreases events.len(),
{
    let before = events.drop_last();
    let step = after_assembly_events(AssemblyStep::Checking, yes, before);
    super::lemma_contains_more(before, events);
    assert(events[events.len() - 1] == events.last());
    if downloading(step) {
        downloads_need_consent(yes, before);
    } else if step is Asking {
        lemma_asking_needs_missing(yes, before);
    }
}

proof fn lemma_asking_needs_missing(yes: bool, events: Seq<AssemblyEvent>)
    requires
        after_assembly_events(AssemblyStep::Checking, yes, events) is Asking,
    ensures
        events.contains(AssemblyEvent::Checked { present: false }),
    decreases events.len(),
{
    let before = events.drop_last();
    super::lemma_contains_more(before, events);
    assert(events[events.len() - 1] == events.last());
    if after_assembly_events(AssemblyStep::Checking, yes, before) is Asking {
        lemma_asking_needs_missing(yes, before);
    }
}

/// With `yes` the user is never asked.
pub proof fn yes_asks_nothing(events: Seq<AssemblyEvent>)
    ensures
        !(after_assembly_events(AssemblyStep::Checking, true, events) is Asking),
        !(after_assembly_events(AssemblyStep::Checking, true, events) is Declined),
    decreases events.len(),
{
    if events.len() > 0 {
        yes_asks_nothing(events.drop_last());
    }
}

/// Assemblies that are there are kept: nothing is asked and nothing is downloaded.
pub proof fn present_assemblies_are_kept(yes: bool, events: Seq<AssemblyEvent>)
    requires
        events.len() > 0,
        events[0] == (AssemblyEvent::Checked { present: true }),
    ensures
        after_assembly_events(AssemblyStep::Checking, yes, events) is Listing
            || after_assembly_events(AssemblyStep::Checking, yes, events) is Present,
    decreases events.len(),
{
    if events.len() == 1 {
        assert(events.drop_last().len() == 0);
        assert(events.last() == events[0]);
        reveal_with_fuel(after_assembly_events, 2);
    } else {
        assert(events.drop_last()[0] == events[0]);
        present_assemblies_are_kept(yes, events.drop_last());
    }
}

/// The events of a download tool that prints `lines` and ends.
pub open spec fn is_tool_run(events: Seq<AssemblyEvent>, lines: Seq<String>, success: bool) -> bool {
    &&& events.len() == lines.len() + 1
    &&& events.last() == (AssemblyEvent::Exited { success })
    &&& forall|i: int|
        0 <= i < lines.len() ==> #[trigger] events[i] == (AssemblyEvent::Printed {
            line: lines[i],
        })
}

/// A download that runs to its end succeeds or fails as the tool does, and its log holds every
/// line that the tool printed, in order.
pub proof fn the_log_is_complete(
    yes: bool,
    events: Seq<AssemblyEvent>,
    lines: Seq<String>,
    success: bool,
)
    requires
        is_tool_run(events, lines, success),
    ensures
        after_assembly_events(AssemblyStep::Running, yes, events) == if success {
            AssemblyStep::Installed
        } else {
            AssemblyStep::Failed
        },
        log_after(AssemblyStep::Running, yes, events) == texts(lines),
{
    let before = events.drop_last();
    assert forall|i: int| 0 <= i < lines.len() implies #[trigger] before[i] == (
    AssemblyEvent::Printed { line: lines[i] }) by {
        assert(before[i] == events[i]);
    }
    lemma_printed_lines(yes, before, lines);
}

proof fn lemma_printed_lines(yes: bool, events: Seq<AssemblyEvent>, lines: Seq<String>)
    requires
        events.len() == lines.len(),
        forall|i: int|
            0 <= i < lines.len() ==> #[trigger] events[i] == (AssemblyEvent::Printed {
                line: lines[i],
            }),
    ensures
        after_assembly_events(AssemblyStep::Running, yes, events) is Running,
        log_after(AssemblyStep::Running, yes, events) == texts(lines),
    decreases events.len(),
{
    if events.len() == 0 {
        assert(texts(lines) =~= Seq::<Seq<char>>::empty());
    } else {
        let before = events.drop_last();
        let fewer = lines.drop_last();
        assert forall|i: int| 0 <= i < fewer.len() implies #[trigger] before[i] == (
        AssemblyEvent::Printed { line: fewer[i] }) by {
            assert(before[i] == events[i]);
        }
        lemma_printed_lines(yes, before, fewer);
        assert(events.last() == events[events.len() - 1]);
        assert(texts(lines) =~= texts(fewer).push(lines.last()@));
    }
}

// ---------------------------------------------------------------------------
// What the steps are about

/// A text that may be missing is seen as what it is.
pub proof fn texts_may_be_missing(text: String)
    ensures
        text_of(Some(text)) == Some(text@),
        text_of(None) is None,
{
}

/// An argument is seen as what it is.
pub proof fn arguments_are_seen_as_they_are(text: String, place: DataPath)
    ensures
        CommandArg::Text(text)@ == ArgView::Text(text@),
        CommandArg::Place(place)@ == ArgView::Place(place@),
{
}

/// The manifest is what stands in the stem of a manifest file between the first underscore and the
/// next one, or the end.
pub proof fn the_manifest_follows_the_first_underscore(
    lead: Seq<char>,
    manifest: Seq<char>,
    rest: Seq<char>,
    extension: Seq<u8>,
)
    requires
        !lead.contains('_'),
        !manifest.contains('_'),
        rest.len() > 0 ==> rest[0] == '_',
        !extension.contains(46u8),
    ensures
        manifest_in_name(
            Some(encode_utf8(lead + seq!['_'] + manifest + rest) + seq![46u8] + extension),
        ) == Some(manifest),
{
    let stem = lead + seq!['_'] + manifest + rest;
    let bytes = encode_utf8(stem);
    assert(stem[lead.len() as int] == '_');
    lemma_bytes_of_a_stem(stem, lead.len() as int);
    assert(bytes + seq![46u8] + extension != seq![46u8, 46u8]) by {
        if bytes + seq![46u8] + extension == seq![46u8, 46u8] {
            assert(bytes.len() == 1);
            assert((bytes + seq![46u8] + extension)[0] == bytes[0]);
            assert(bytes =~= seq![46u8]);
        }
    }
    crate::path::stems_stand_before_the_extension(bytes, extension);
    encode_utf8_decode_utf8(stem);
    encode_utf8_valid_utf8(stem);
    let behind = manifest + rest;
    assert(stem =~= lead + seq!['_'] + behind);
    crate::text::fields_are_split_off(lead, '_', behind);
    if rest.len() == 0 {
        assert(behind =~= manifest);
        crate::text::fields_are_split_off(manifest, '_', rest);
    } else {
        assert(behind =~= manifest + seq!['_'] + rest.drop_first());
        crate::text::fields_are_split_off(manifest, '_', rest.drop_first());
    }
    assert(split_at_each(stem, '_')[1] == split_at_each(behind, '_')[0]);
}

/// A stem with an underscore in it has bytes, and is not a full stop.
proof fn lemma_bytes_of_a_stem(stem: Seq<char>, i: int)
    requires
        0 <= i < stem.len(),
        stem[i] == '_',
    ensures
        encode_utf8(stem).len() > 0,
        encode_utf8(stem) != seq![46u8],
{
    encode_utf8_decode_utf8(stem);
    encode_utf8_decode_utf8(seq!['.']);
    assert(encode_utf8(seq!['.']) =~= seq![46u8]) by {
        reveal_with_fuel(encode_utf8, 2);
        assert(seq!['.'].drop_first() =~= Seq::<char>::empty());
        assert(46u32 & 0x7f == 46u32) by (bit_vector);
    }
    if encode_utf8(stem) == seq![46u8] {
        assert(stem == seq!['.']);
    }
    encode_utf8_decode_utf8(Seq::<char>::empty());
    if encode_utf8(stem).len() == 0 {
        assert(encode_utf8(stem) =~= encode_utf8(Seq::<char>::empty()));
    }
}

/// A manifest file without an underscore in its stem, or without a name that is text, tells nothing.
pub proof fn other_names_tell_no_manifest(stem: Seq<u8>, extension: Seq<u8>)
    requires
        stem.len() > 0,
        !extension.contains(46u8),
        stem + seq![46u8] + extension != seq![46u8, 46u8],
        valid_utf8(stem) ==> !decode_utf8(stem).contains('_'),
    ensures
        manifest_in_name(Some(stem + seq![46u8] + extension)) is None,
        manifest_in_name(None) is None,
{
    crate::path::stems_stand_before_the_extension(stem, extension);
    if valid_utf8(stem) {
        crate::text::fields_are_split_off(decode_utf8(stem), '_', seq![]);
    }
}

/// The first manifest file that is listed decides, whatever is listed behind it, and an entry
/// before it that could not be read, or none at all, leaves the manifest unknown.
pub proof fn the_first_manifest_file_decides(entries: Vec<Option<Option<Vec<u8>>>>, i: int)
    requires
        0 <= i <= entries@.len(),
        forall|k: int|
            0 <= k < i ==> (#[trigger] entries@[k]) is Some && !named_with_extension(
                name_bytes(entries@[k]->0),
                "manifest"@,
            ),
    ensures
        i < entries@.len() && entries@[i] is Some && named_with_extension(
            name_bytes(entries@[i]->0),
            "manifest"@,
        ) ==> manifest_of(Some(entries)) == manifest_in_name(name_bytes(entries@[i]->0)),
        i < entries@.len() && entries@[i] is None ==> manifest_of(Some(entries)) is None,
        i == entries@.len() ==> manifest_of(Some(entries)) is None,
        manifest_of(None) is None,
{
    if i < entries@.len() && entries@[i] is Some && named_with_extension(
        name_bytes(entries@[i]->0),
        "manifest"@,
    ) {
        assert(first_manifest_at(entries@, i));
        lemma_first_manifest_once(entries@, i);
    } else if i == entries@.len() || entries@[i] is None {
        assert forall|j: int| !first_manifest_at(entries@, j) by {
            if first_manifest_at(entries@, j) {
                if j < i {
                    assert(entries@[j] is Some);
                } else if j > i {
                    assert(entries@[i] is Some);
                }
            }
        }
    }
}

/// The game's assembly is looked for, and the download tool's state is kept, in the folder that the
/// tool is told to download into: that of the branch.
pub proof fn downloads_go_where_they_are_looked_for(branch: Branch, other: Branch)
    ensures
        download_args(branch)[4] == ArgView::Text("-dir"@),
        download_args(branch)[5] == ArgView::Place(seq![branch.folder()]),
        assembly_place(branch).drop_last() == seq![branch.folder()],
        assembly_place(branch).last() == "RustDedicated_Data/Managed/Assembly-CSharp.dll"@,
        state_place(branch).drop_last() == seq![branch.folder()],
        state_place(branch).last() == ".DepotDownloader"@,
        assembly_place(branch) == assembly_place(other) <==> branch == other,
{
    assert(assembly_place(branch).drop_last() =~= library_place(branch));
    assert(state_place(branch).drop_last() =~= library_place(branch));
    crate::branch::branches_have_distinct_folders(branch, other);
    assert(assembly_place(branch)[0] == branch.folder());
    assert(assembly_place(other)[0] == other.folder());
}

/// The download tool is told the app and the depot of the game's server, and the list that was
/// written; only for the staging branch is it told a branch, and that is the one.
pub proof fn the_tool_is_told_what_to_download(branch: Branch)
    ensures
        download_args(branch).take(4) == seq![
            ArgView::Text("-app"@),
            ArgView::Text("258550"@),
            ArgView::Text("-depot"@),
            ArgView::Text("258551"@),
        ],
        download_args(branch)[6] == ArgView::Text("-filelist"@),
        download_args(branch)[7] == ArgView::Place(filelist_place()),
        filelist_place() == seq!["tools"@, "managed.filelist"@],
        branch is Release ==> download_args(branch).len() == 8,
        branch is Staging ==> download_args(branch).skip(8) == seq![
            ArgView::Text("-branch"@),
            ArgView::Text("staging"@),
        ],
{
    assert(download_args(branch).take(4) =~= seq![
        ArgView::Text("-app"@),
        ArgView::Text("258550"@),
        ArgView::Text("-depot"@),
        ArgView::Text("258551"@),
    ]);
    if branch is Staging {
        assert(download_args(branch).skip(8) =~= seq![
            ArgView::Text("-branch"@),
            ArgView::Text("staging"@),
        ]);
    }
}

/// Missing assemblies are downloaded once the user agreed, or without asking, and are installed just
/// where the download tool succeeds. Where the user is asked and does not agree, nothing is.
pub proof fn missing_assemblies_are_downloaded(yes: bool, success: bool)
    ensures
        ({
            let missing = AssemblyEvent::Checked { present: false };
            let agreed = AssemblyEvent::Answered { confirmed: true };
            let ended = AssemblyEvent::Exited { success };
            let start = AssemblyStep::Checking;
            let steps = seq![missing, agreed, AssemblyEvent::Prepared, ended];
            &&& after_assembly_events(start, yes, steps) is Installed <==> success
            &&& after_assembly_events(start, yes, steps) is Failed <==> !success
            &&& after_assembly_events(
                start,
                yes,
                seq![missing, AssemblyEvent::Answered { confirmed: false }],
            ) is Declined <==> !yes
        }),
{
    let start = AssemblyStep::Checking;
    let none = Seq::<AssemblyEvent>::empty();
    let e1 = none.push(AssemblyEvent::Checked { present: false });
    let e2 = e1.push(AssemblyEvent::Answered { confirmed: true });
    let e3 = e2.push(AssemblyEvent::Prepared);
    let e4 = e3.push(AssemblyEvent::Exited { success });
    let declined = e1.push(AssemblyEvent::Answered { confirmed: false });
    assert(e1.drop_last() =~= none);
    assert(after_assembly_events(start, yes, none) == start);
    assert(e1.last() == (AssemblyEvent::Checked { present: false }));
    assert(after_assembly_events(start, yes, e1) == if yes {
        AssemblyStep::Preparing
    } else {
        AssemblyStep::Asking
    });
    assert(e2.drop_last() =~= e1);
    assert(after_assembly_events(start, yes, e2) is Preparing);
    assert(e3.drop_last() =~= e2);
    assert(after_assembly_events(start, yes, e3) is Running);
    assert(e4.drop_last() =~= e3);
    assert(declined.drop_last() =~= e1);
    assert(e4 =~= seq![
        AssemblyEvent::Checked { present: false },
        AssemblyEvent::Answered { confirmed: true },
        AssemblyEvent::Prepared,
        AssemblyEvent::Exited { success },
    ]);
    assert(declined =~= seq![
        AssemblyEvent::Checked { present: false },
        AssemblyEvent::Answered { confirmed: false },
    ]);
}

} // verus!
