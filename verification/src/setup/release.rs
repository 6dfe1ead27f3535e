//! Installing a component from the latest release of its project.
use vstd::prelude::*;

use crate::branch::Branch;
use crate::path::{library_dir, library_place, DataPath};
use crate::setup::compiler::{compiler_dir, compiler_place};
use crate::setup::oxide::{first_asset_at, no_asset, Release};

verus! {

/// What is installed from a release.
#[derive(Debug, Clone, Copy, PartialEq, Eq, Structural)]
pub enum Component {
    /// Oxide, among the libraries of a branch.
    Oxide(Branch),
    /// The compiler.
    Compiler,
}

impl Component {
    /// What the component is called.
    pub open spec fn title(self) -> Seq<char> {
        match self {
            Component::Oxide(_) => "Oxide"@,
            Component::Compiler => "OxideCompiler"@,
        }
    }

    /// The file that shows that the component is installed.
    pub open spec fn landmark(self) -> Seq<Seq<char>> {
        match self {
            Component::Oxide(branch) => library_place(branch).push(
                "RustDedicated_Data/Managed/Oxide.Rust.dll"@,
            ),
            Component::Compiler => compiler_place().push("OxideCompiler.dll"@),
        }
    }

    /// Where the latest release is described.
    pub open spec fn url(self) -> Seq<char> {
        match self {
            Component::Oxide(_) =>
                "https://api.github.com/repos/OxideMod/Oxide.Rust/releases/latest"@,
            Component::Compiler =>
                "https://api.github.com/repos/ItzPabz/oxidize/releases/latest"@,
        }
    }

    /// The archive in the release.
    pub open spec fn archive(self) -> Seq<char> {
        match self {
            Component::Oxide(_) => "Oxide.Rust.zip"@,
            Component::Compiler => "OxideCompiler.zip"@,
        }
    }

    /// Where the archive is downloaded to.
    pub open spec fn archive_place(self) -> Seq<Seq<char>> {
        seq!["tools"@, self.archive()]
    }

    /// Where the archive is extracted to.
    pub open spec fn home(self) -> Seq<Seq<char>> {
        match self {
            Component::Oxide(branch) => library_place(branch),
            Component::Compiler => compiler_place(),
        }
    }

    /// What the component is called.
    pub fn name(&self) -> (name: &str)
        ensures
            name@ == self.title(),
            self is Oxide ==> name@ == "Oxide"@,
            self is Compiler ==> name@ == "OxideCompiler"@,
    {
        match self {
            Component::Oxide(_) => "Oxide",
            Component::Compiler => "OxideCompiler",
        }
    }

    /// The file that shows that the component is installed.
    fn landmark_path(&self) -> (path: DataPath)
        ensures
            path@ == self.landmark(),
    {
        match self {
            Component::Oxide(branch) => library_dir(branch).join(
                "RustDedicated_Data/Managed/Oxide.Rust.dll",
            ),
            Component::Compiler => compiler_dir().join("OxideCompiler.dll"),
        }
    }

    /// Where the latest release is described.
    pub fn release_url(&self) -> (url: &str)
        ensures
            url@ == self.url(),
            self is Oxide ==> url@
                == "https://api.github.com/repos/OxideMod/Oxide.Rust/releases/latest"@,
            self is Compiler ==> url@
                == "https://api.github.com/repos/ItzPabz/oxidize/releases/latest"@,
    {
        match self {
            Component::Oxide(_) =>
                "https://api.github.com/repos/OxideMod/Oxide.Rust/releases/latest",
            Component::Compiler => "https://api.github.com/repos/ItzPabz/oxidize/releases/latest",
        }
    }

    /// The archive in the release.
    pub fn archive_name(&self) -> (name: &str)
        ensures
            name@ == self.archive(),
            self is Oxide ==> name@ == "Oxide.Rust.zip"@,
            self is Compiler ==> name@ == "OxideCompiler.zip"@,
    {
        match self {
            Component::Oxide(_) => "Oxide.Rust.zip",
            Component::Compiler => "OxideCompiler.zip",
        }
    }

    /// Where the archive is downloaded to.
    fn archive_path(&self) -> (path: DataPath)
        ensures
            path@ == self.archive_place(),
    {
        let path = DataPath::root().join("tools").join(self.archive_name());
        assert(path@ =~= self.archive_place());
        path
    }

    /// Where the archive is extracted to.
    fn home_path(&self) -> (path: DataPath)
        ensures
            path@ == self.home(),
    {
        match self {
            Component::Oxide(branch) => library_dir(branch),
            Component::Compiler => compiler_dir(),
        }
    }
}

/// How far the installation of a component has come.
#[derive(Debug)]
pub enum ReleaseStep {
    /// The component is looked for.
    Checking,
    /// It is missing; its folder is made.
    MakingFolder,
    /// The description of the latest release is fetched.
    Fetching,
    /// The archive of the release `tag` is downloaded from `url`.
    Downloading { tag: String, url: String },
    /// The archive is extracted.
    Extracting,
    /// The component was there already.
    Present,
    /// The component has been installed.
    Installed,
    /// The release `tag` has no such archive.
    NoArchive { tag: String },
}

/// What came of a step.
#[derive(Debug)]
pub enum ReleaseEvent {
    /// Whether the component is there.
    Checked { present: bool },
    /// The folder has been made.
    FolderMade,
    /// The latest release.
    Fetched { release: Release },
    /// The archive has been downloaded.
    Downloaded,
    /// The archive has been extracted.
    Extracted,
}

/// What to do next.
#[derive(Debug)]
pub enum ReleaseAction {
    /// Show `message` and look whether there is a file at `path`.
    Check { message: String, path: DataPath },
    /// Show `message` and make the folder at `path`, with those above it.
    MakeFolder { message: String, path: DataPath },
    /// Show `message` and fetch the description of a release from `url`, with `agent` as the
    /// request's `User-Agent`.
    Fetch { message: String, url: String, agent: String },
    /// Show `message` and download `url` to the file at `path`, with `agent` as the request's
    /// `User-Agent`.
    Download { message: String, url: String, agent: String, path: DataPath },
    /// Extract the archive at `archive` into the folder at `into`.
    Extract { archive: DataPath, into: DataPath },
    /// Show `message`: the component is there.
    Finish { message: String },
    /// Show `message` and give up with `error`.
    Fail { message: String, error: String },
}

/// What every request calls the program, in its header `User-Agent`.
pub fn user_agent() -> (agent: &'static str)
    ensures
        agent@ == "oxidize"@,
{
    "oxidize"
}

/// The installation of a component.
#[derive(Debug)]
pub struct ReleaseSetup {
    pub component: Component,
    pub step: ReleaseStep,
}

/// The step after fetching `release`: its archive is downloaded, the first one of that name.
pub open spec fn after_fetching(component: Component, release: Release) -> ReleaseStep {
    if no_asset(release.assets@, component.archive()) {
        ReleaseStep::NoArchive { tag: release.tag_name }
    } else {
        let i = choose|i: int| first_asset_at(release.assets@, component.archive(), i);
        ReleaseStep::Downloading {
            tag: release.tag_name,
            url: release.assets@[i].browser_download_url,
        }
    }
}

/// The step that `event` leads to.
pub open spec fn next_release_step(
    component: Component,
    step: ReleaseStep,
    event: ReleaseEvent,
) -> ReleaseStep {
    match (step, event) {
        (ReleaseStep::Checking, ReleaseEvent::Checked { present }) => if present {
            ReleaseStep::Present
        } else if component is Compiler {
            ReleaseStep::MakingFolder
        } else {
            ReleaseStep::Fetching
        },
        (ReleaseStep::MakingFolder, ReleaseEvent::FolderMade) => ReleaseStep::Fetching,
        (ReleaseStep::Fetching, ReleaseEvent::Fetched { release }) => after_fetching(
            component,
            release,
        ),
        (ReleaseStep::Downloading { .. }, ReleaseEvent::Downloaded) => ReleaseStep::Extracting,
        (ReleaseStep::Extracting, ReleaseEvent::Extracted) => ReleaseStep::Installed,
        _ => step,
    }
}

/// There is at most one first asset of a name.
proof fn lemma_first_asset_once(release: Release, name: Seq<char>, i: int)
    requires
        first_asset_at(release.assets@, name, i),
    ensures
        i == choose|j: int| first_asset_at(release.assets@, name, j),
        !no_asset(release.assets@, name),
{
    let assets = release.assets@;
    let j = choose|j: int| first_asset_at(assets, name, j);
    assert(first_asset_at(assets, name, j));
    assert(assets[i].name@ == name);
    assert(assets[j].name@ == name);
}

impl ReleaseSetup {
    /// Takes in what came of the step.
    pub fn advance(self, event: ReleaseEvent) -> (next: ReleaseSetup)
        ensures
            next.component == self.component,
            next.step == next_release_step(self.component, self.step, event),
            self.step is Checking && event is Checked && event->present ==> next.step is Present,
            self.step is Checking && event is Checked && !event->present && self.component
                is Compiler ==> next.step is MakingFolder,
            self.step is Checking && event is Checked && !event->present && self.component
                is Oxide ==> next.step is Fetching,
            self.step is MakingFolder && event is FolderMade ==> next.step is Fetching,
            self.step is Fetching && event is Fetched ==> {
                let archive = if self.component is Compiler {
                    "OxideCompiler.zip"@
                } else {
                    "Oxide.Rust.zip"@
                };
                let assets = event->release.assets@;
                match next.step {
                    ReleaseStep::Downloading { tag, url } => {
                        &&& tag@ == event->release.tag_name@
                        &&& exists|i: int|
                            {
                                &&& 0 <= i < assets.len()
                                &&& (#[trigger] assets[i]).name@ == archive
                                &&& url@ == assets[i].browser_download_url@
                                &&& forall|k: int|
                                    0 <= k < i ==> (#[trigger] assets[k]).name@ != archive
                            }
                    },
                    ReleaseStep::NoArchive { tag } => {
                        &&& tag@ == event->release.tag_name@
                        &&& forall|k: int|
                            0 <= k < assets.len() ==> (#[trigger] assets[k]).name@ != archive
                    },
                    _ => false,
                }
            },
            self.step is Downloading && event is Downloaded ==> next.step is Extracting,
            self.step is Extracting && event is Extracted ==> next.step is Installed,
            !(self.step is Checking && event is Checked) && !(self.step is MakingFolder && event
                is FolderMade) && !(self.step is Fetching && event is Fetched) && !(self.step
                is Downloading && event is Downloaded) && !(self.step is Extracting && event
                is Extracted) ==> next.step == self.step,
    {
        let component = self.component;
        let step = match (self.step, event) {
            (ReleaseStep::Checking, ReleaseEvent::Checked { present }) => if present {
                ReleaseStep::Present
            } else {
                match component {
                    Component::Compiler => ReleaseStep::MakingFolder,
                    Component::Oxide(_) => ReleaseStep::Fetching,
                }
            },
            (ReleaseStep::MakingFolder, ReleaseEvent::FolderMade) => ReleaseStep::Fetching,
            (ReleaseStep::Fetching, ReleaseEvent::Fetched { release }) => {
                match release.find_asset(component.archive_name()) {
                    Some(i) => {
                        proof {
                            lemma_first_asset_once(release, component.archive(), i as int);
                        }
                        let url = release.assets[i].browser_download_url.clone();
                        ReleaseStep::Downloading { tag: release.tag_name, url }
                    },
                    None => ReleaseStep::NoArchive { tag: release.tag_name },
                }
            },
            (ReleaseStep::Downloading { .. }, ReleaseEvent::Downloaded) => ReleaseStep::Extracting,
            (ReleaseStep::Extracting, ReleaseEvent::Extracted) => ReleaseStep::Installed,
            (step, _) => step,
        };
        ReleaseSetup { component, step }
    }

    /// What to do next.
    pub fn action(&self) -> (action: ReleaseAction)
        ensures
            match self.step {
                ReleaseStep::Checking => {
                    &&& action matches ReleaseAction::Check { message, path }
                    &&& message@ == "Checking for "@ + self.component.title() + "..."@
                    &&& path@ == self.component.landmark()
                },
                ReleaseStep::MakingFolder => {
                    &&& action matches ReleaseAction::MakeFolder { message, path }
                    &&& message@ == "Downloading "@ + self.component.title() + "..."@
                    &&& path@ == self.component.home()
                },
                ReleaseStep::Fetching => {
                    &&& action matches ReleaseAction::Fetch { message, url, agent }
                    &&& message@ == "Downloading "@ + self.component.title() + "..."@
                    &&& url@ == self.component.url()
                    &&& agent@ == "oxidize"@
                },
                ReleaseStep::Downloading { tag, url: from } => {
                    &&& action matches ReleaseAction::Download { message, url, agent, path }
                    &&& message@ == "Downloading "@ + self.component.title() + " "@ + tag@ + "…"@
                    &&& url@ == from@
                    &&& agent@ == "oxidize"@
                    &&& path@ == self.component.archive_place()
                },
                ReleaseStep::Extracting => {
                    &&& action matches ReleaseAction::Extract { archive, into }
                    &&& archive@ == self.component.archive_place()
                    &&& into@ == self.component.home()
                },
                ReleaseStep::Present => {
                    &&& action matches ReleaseAction::Finish { message }
                    &&& message@ == self.component.title() + " installed"@
                },
                ReleaseStep::Installed => {
                    &&& action matches ReleaseAction::Finish { message }
                    &&& message@ == self.component.title() + " installed successfully"@
                },
                ReleaseStep::NoArchive { tag } => {
                    &&& action matches ReleaseAction::Fail { message, error }
                    &&& message@ == "Downloading "@ + self.component.title() + " "@ + tag@ + "…"@
                    &&& error@ == self.component.archive() + " not found"@
                },
            },
            ({
                let title = if self.component is Compiler {
                    "OxideCompiler"@
                } else {
                    "Oxide"@
                };
                let archive_name = if self.component is Compiler {
                    "OxideCompiler.zip"@
                } else {
                    "Oxide.Rust.zip"@
                };
                let home = match self.component {
                    Component::Compiler => seq!["tools"@, "compiler"@],
                    Component::Oxide(Branch::Release) => seq!["release"@],
                    Component::Oxide(Branch::Staging) => seq!["staging"@],
                };
                match self.step {
                    ReleaseStep::Checking => {
                        &&& action matches ReleaseAction::Check { message, path }
                        &&& message@ == "Checking for "@ + title + "..."@
                        &&& path@ == home.push(
                            if self.component is Compiler {
                                "OxideCompiler.dll"@
                            } else {
                                "RustDedicated_Data/Managed/Oxide.Rust.dll"@
                            },
                        )
                    },
                    ReleaseStep::MakingFolder => {
                        &&& action matches ReleaseAction::MakeFolder { message, path }
                        &&& message@ == "Downloading "@ + title + "..."@
                        &&& path@ == home
                    },
                    ReleaseStep::Fetching => {
                        &&& action matches ReleaseAction::Fetch { message, url, agent }
                        &&& message@ == "Downloading "@ + title + "..."@
                        &&& self.component is Compiler ==> url@
                            == "https://api.github.com/repos/ItzPabz/oxidize/releases/latest"@
                        &&& self.component is Oxide ==> url@
                            == "https://api.github.com/repos/OxideMod/Oxide.Rust/releases/latest"@
                        &&& agent@ == "oxidize"@
                    },
                    ReleaseStep::Downloading { tag, url: from } => {
                        &&& action matches ReleaseAction::Download { message, url, agent, path }
                        &&& message@ == "Downloading "@ + title + " "@ + tag@ + "…"@
                        &&& url@ == from@
                        &&& agent@ == "oxidize"@
                        &&& path@ == seq!["tools"@, archive_name]
                    },
                    ReleaseStep::Extracting => {
                        &&& action matches ReleaseAction::Extract { archive, into }
                        &&& archive@ == seq!["tools"@, archive_name]
                        &&& into@ == home
                    },
                    ReleaseStep::Present => {
                        &&& action matches ReleaseAction::Finish { message }
                        &&& message@ == title + " installed"@
                    },
                    ReleaseStep::Installed => {
                        &&& action matches ReleaseAction::Finish { message }
                        &&& message@ == title + " installed successfully"@
                    },
                    ReleaseStep::NoArchive { tag } => {
                        &&& action matches ReleaseAction::Fail { message, error }
                        &&& message@ == "Downloading "@ + title + " "@ + tag@ + "…"@
                        &&& error@ == archive_name + " not found"@
                    },
                }
            }),
    {
        let name = self.component.name();
        match &self.step {
            ReleaseStep::Checking => {
                let mut message = "Checking for ".to_owned();
                message.append(name);
                message.append("...");
                ReleaseAction::Check { message, path: self.component.landmark_path() }
            },
            ReleaseStep::MakingFolder => ReleaseAction::MakeFolder {
                message: self.downloading(),
                path: self.component.home_path(),
            },
            ReleaseStep::Fetching => ReleaseAction::Fetch {
                message: self.downloading(),
                url: self.component.release_url().to_owned(),
                agent: user_agent().to_owned(),
            },
            ReleaseStep::Downloading { tag, url } => ReleaseAction::Download {
                message: self.downloading_release(tag.as_str()),
                url: url.clone(),
                agent: user_agent().to_owned(),
                path: self.component.archive_path(),
            },
            ReleaseStep::Extracting => ReleaseAction::Extract {
                archive: self.component.archive_path(),
                into: self.component.home_path(),
            },
            ReleaseStep::Present => {
                let mut message = name.to_owned();
                message.append(" installed");
                ReleaseAction::Finish { message }
            },
            ReleaseStep::Installed => {
                let mut message = name.to_owned();
                message.append(" installed successfully");
                ReleaseAction::Finish { message }
            },
            ReleaseStep::NoArchive { tag } => {
                let mut error = self.component.archive_name().to_owned();
                error.append(" not found");
                ReleaseAction::Fail { message: self.downloading_release(tag.as_str()), error }
            },
        }
    }

    /// That the component is being downloaded.
    fn downloading(&self) -> (message: String)
        ensures
            message@ == "Downloading "@ + self.component.title() + "..."@,
    {
        let mut message = "Downloading ".to_owned();
        message.append(self.component.name());
        message.append("...");
        message
    }

    /// That the release `tag` of the component is being downloaded.
    fn downloading_release(&self, tag: &str) -> (message: String)
        ensures
            message@ == "Downloading "@ + self.component.title() + " "@ + tag@ + "…"@,
    {
        let mut message = "Downloading ".to_owned();
        message.append(self.component.name());
        message.append(" ");
        message.append(tag);
        message.append("…");
        message
    }
}

// ---------------------------------------------------------------------------
// What every run keeps

/// The step that is reached from `step` by `events`, one after the other.
pub open spec fn after_release_events(
    component: Component,
    step: ReleaseStep,
    events: Seq<ReleaseEvent>,
) -> ReleaseStep
    decreases events.len(),
{
    if events.len() == 0 {
        step
    } else {
        next_release_step(
            component,
            after_release_events(component, step, events.drop_last()),
            events.last(),
        )
    }
}

/// The installation came to an end.
pub open spec fn release_decided(step: ReleaseStep) -> bool {
    step is Present || step is Installed || step is NoArchive
}

/// What has been decided stays decided.
pub proof fn decided_release_stays(
    component: Component,
    step: ReleaseStep,
    events: Seq<ReleaseEvent>,
)
    requires
        release_decided(step),
    ensures
        after_release_events(component, step, events) == step,
    decreases events.len(),
{
    if events.len() > 0 {
        decided_release_stays(component, step, events.drop_last());
    }
}

/// A component that is there is kept: nothing is fetched and nothing is downloaded.
pub proof fn present_component_is_kept(component: Component, events: Seq<ReleaseEvent>)
    requires
        events.len() > 0,
        events[0] == (ReleaseEvent::Checked { present: true }),
    ensures
        after_release_events(component, ReleaseStep::Checking, events) is Present,
    decreases events.len(),
{
    if events.len() == 1 {
        assert(events.drop_last().len() == 0);
        assert(events.last() == events[0]);
        reveal_with_fuel(after_release_events, 2);
    } else {
        assert(events.drop_last()[0] == events[0]);
        present_component_is_kept(component, events.drop_last());
    }
}

/// Whatever is downloaded is the archive of a release that was fetched, the first one of its name
/// there.
pub proof fn only_the_archive_is_downloaded(component: Component, events: Seq<ReleaseEvent>)
    requires
        after_release_events(component, ReleaseStep::Checking, events) is Downloading,
    ensures
        exists|release: Release, i: int|
            {
                &&& events.contains(ReleaseEvent::Fetched { release })
                &&& #[trigger] first_asset_at(release.assets@, component.archive(), i)
                &&& after_release_events(component, ReleaseStep::Checking, events)
                    == ReleaseStep::Downloading {
                    tag: release.tag_name,
                    url: release.assets@[i].browser_download_url,
                }
            },
    decreases events.len(),
{
    let before = events.drop_last();
    super::lemma_contains_more(before, events);
    assert(events[events.len() - 1] == events.last());
    let step = after_release_events(component, ReleaseStep::Checking, before);
    if step is Downloading {
        only_the_archive_is_downloaded(component, before);
    } else {
        let release = events.last()->release;
        lemma_some_asset_is_first(release, component.archive());
        let i = choose|i: int| first_asset_at(release.assets@, component.archive(), i);
        assert(first_asset_at(release.assets@, component.archive(), i));
    }
}

/// Where there is an asset of a name, one is the first.
proof fn lemma_some_asset_is_first(release: Release, name: Seq<char>)
    requires
        !no_asset(release.assets@, name),
    ensures
        exists|i: int| first_asset_at(release.assets@, name, i),
{
    let assets = release.assets@;
    let k = choose|k: int| 0 <= k < assets.len() && (#[trigger] assets[k]).name@ == name;
    lemma_first_asset_up_to(release, name, k);
}

proof fn lemma_first_asset_up_to(release: Release, name: Seq<char>, k: int)
    requires
        0 <= k < release.assets@.len(),
        release.assets@[k].name@ == name,
    ensures
        exists|i: int| first_asset_at(release.assets@, name, i),
    decreases k,
{
    let assets = release.assets@;
    if exists|j: int| 0 <= j < k && (#[trigger] assets[j]).name@ == name {
        let j = choose|j: int| 0 <= j < k && (#[trigger] assets[j]).name@ == name;
        lemma_first_asset_up_to(release, name, j);
    } else {
        assert(first_asset_at(assets, name, k));
    }
}

/// A component that is missing is installed, once its folder is made, the release is fetched and
/// has the archive, and the archive is downloaded and extracted.
pub proof fn missing_component_is_installed(component: Component, release: Release)
    requires
        !no_asset(release.assets@, component.archive()),
    ensures
        after_release_events(
            component,
            ReleaseStep::Checking,
            seq![
                ReleaseEvent::Checked { present: false },
                ReleaseEvent::FolderMade,
                ReleaseEvent::Fetched { release },
                ReleaseEvent::Downloaded,
                ReleaseEvent::Extracted,
            ],
        ) is Installed,
{
    let e1 = seq![ReleaseEvent::Checked { present: false }];
    let e2 = e1.push(ReleaseEvent::FolderMade);
    let e3 = e2.push(ReleaseEvent::Fetched { release });
    let e4 = e3.push(ReleaseEvent::Downloaded);
    let e5 = e4.push(ReleaseEvent::Extracted);
    let start = ReleaseStep::Checking;
    assert(e1.drop_last() =~= Seq::<ReleaseEvent>::empty());
    assert(after_release_events(component, start, e1.drop_last()) == start);
    assert(e1.last() == (ReleaseEvent::Checked { present: false }));
    assert(after_release_events(component, start, e1) == if component is Compiler {
        ReleaseStep::MakingFolder
    } else {
        ReleaseStep::Fetching
    });
    assert(e2.drop_last() =~= e1);
    assert(after_release_events(component, start, e2) is Fetching);
    assert(e3.drop_last() =~= e2);
    assert(after_release_events(component, start, e3) is Downloading);
    assert(e4.drop_last() =~= e3);
    assert(after_release_events(component, start, e4) is Extracting);
    assert(e5.drop_last() =~= e4);
    assert(e5 =~= seq![
        ReleaseEvent::Checked { present: false },
        ReleaseEvent::FolderMade,
        ReleaseEvent::Fetched { release },
        ReleaseEvent::Downloaded,
        ReleaseEvent::Extracted,
    ]);
}

// ---------------------------------------------------------------------------
// Where things are put and looked for

/// What is installed is found again: the file that shows that a component is there lies in the
/// folder that its archive is extracted into, or below it.
pub proof fn components_are_found_where_they_are_put(component: Component)
    ensures
        component.home().len() > 0,
        component.landmark().len() == component.home().len() + 1,
        component.landmark().take(component.home().len() as int) == component.home(),
{
    assert(component.landmark().take(component.home().len() as int) =~= component.home());
}

/// Oxide goes among the libraries of its own branch, and is looked for there, whatever the branch;
/// so the two branches have each their own.
pub proof fn oxide_belongs_to_its_branch(branch: Branch, other: Branch)
    ensures
        Component::Oxide(branch).home() == library_place(branch),
        Component::Oxide(branch).home()[0] == branch.folder(),
        Component::Oxide(branch).landmark()[0] == branch.folder(),
        Component::Oxide(branch).home() == Component::Oxide(other).home() <==> branch == other,
        Component::Oxide(branch).landmark() == Component::Oxide(other).landmark() <==> branch
            == other,
{
    crate::branch::branches_have_distinct_folders(branch, other);
    assert(Component::Oxide(branch).home()[0] == branch.folder());
    assert(Component::Oxide(other).home()[0] == other.folder());
    assert(Component::Oxide(branch).landmark()[0] == branch.folder());
    assert(Component::Oxide(other).landmark()[0] == other.folder());
}

/// The compiler is looked for, and put, where it is loaded from.
pub proof fn the_compiler_is_put_where_it_is_loaded_from()
    ensures
        Component::Compiler.home() == compiler_place(),
        Component::Compiler.landmark() == compiler_place().push("OxideCompiler.dll"@),
{
}

/// An archive is kept under its own name in the folder of the tools, and so not where any component
/// goes or is looked for.
pub proof fn archives_are_kept_apart(component: Component, other: Component)
    ensures
        component.archive_place().len() == 2,
        component.archive_place()[0] == "tools"@,
        component.archive_place()[1] == component.archive(),
        component.archive_place() != other.home(),
        component.archive_place() != other.landmark(),
        component.archive() == other.archive() <==> (component is Compiler <==> other is Compiler),
{
    reveal_strlit("Oxide.Rust.zip");
    reveal_strlit("OxideCompiler.zip");
    reveal_strlit("compiler");
    reveal_strlit("tools");
    reveal_strlit("release");
    reveal_strlit("staging");
    assert("Oxide.Rust.zip"@.len() == 14 && "OxideCompiler.zip"@.len() == 17);
    assert("compiler"@.len() == 8);
    assert("tools"@.len() == 5 && "release"@.len() == 7 && "staging"@.len() == 7);
    match other {
        Component::Compiler => {
            assert(other.home()[1] == "compiler"@);
            assert(other.landmark().len() == 3);
        },
        Component::Oxide(branch) => {
            assert(other.home().len() == 1);
            assert(other.landmark()[0] == branch.folder());
        },
    }
}

/// What the components are called, where their releases are described and what their archives are
/// called differs between Oxide and the compiler, and not between branches.
pub proof fn components_are_told_apart(a: Branch, b: Branch)
    ensures
        Component::Oxide(a).title() == Component::Oxide(b).title(),
        Component::Oxide(a).url() == Component::Oxide(b).url(),
        Component::Oxide(a).archive() == Component::Oxide(b).archive(),
        Component::Oxide(a).url() != Component::Compiler.url(),
        Component::Oxide(a).title() != Component::Compiler.title(),
{
    reveal_strlit("Oxide");
    reveal_strlit("OxideCompiler");
    reveal_strlit("https://api.github.com/repos/OxideMod/Oxide.Rust/releases/latest");
    reveal_strlit("https://api.github.com/repos/ItzPabz/oxidize/releases/latest");
    assert("Oxide"@.len() != "OxideCompiler"@.len());
    assert(Component::Oxide(a).url().len() != Component::Compiler.url().len());
}

} // verus!
