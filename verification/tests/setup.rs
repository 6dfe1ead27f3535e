use oxidize::branch::Branch;
use oxidize::path::DataPath;
use oxidize::setup::assembly::{
    download_arguments, ensure_assemblies, installed_manifest, AssemblyAction, AssemblyEvent, AssemblySetup,
    AssemblyStep, CommandArg,
};
use oxidize::setup::compiler::ensure_compiler;
use oxidize::setup::oxide::{ensure_oxide, Asset, Release};
use oxidize::setup::release::{ReleaseAction, ReleaseEvent, ReleaseSetup, ReleaseStep};
use oxidize::setup::{depot_path, prereq_checks, PrereqAction, PrereqChecks, PrereqEvent, PrereqStep};

fn name(text: &str) -> Option<Option<Vec<u8>>> {
    Some(Some(text.as_bytes().to_vec()))
}

fn joined(path: &DataPath) -> String {
    path.parts.join("|")
}

// Prerequisites

fn prereqs() -> PrereqChecks {
    prereq_checks(".exe".to_string(), "/data/tools/DepotDownloader.exe".to_string())
}

#[test]
fn the_download_tool_is_looked_for_first() {
    match prereqs().action() {
        PrereqAction::LookForDepot { message, path } => {
            assert_eq!(message, "Checking prerequisites...");
            assert_eq!(joined(&path), "tools|DepotDownloader.exe");
        }
        other => panic!("{other:?}"),
    }
    assert_eq!(joined(&depot_path("")), "tools|DepotDownloader");
}

#[test]
fn a_missing_download_tool_ends_the_program() {
    let checks = prereqs().advance(PrereqEvent::DepotChecked { present: false });
    match checks.action() {
        PrereqAction::Quit { lines } => assert_eq!(
            lines,
            vec![
                "DepotDownloader not found at /data/tools/DepotDownloader.exe",
                "Download it from: https://github.com/SteamRE/DepotDownloader/releases",
                "and place it there, then re-run.",
            ]
        ),
        other => panic!("{other:?}"),
    }
}

#[test]
fn the_version_of_dotnet_is_asked_for() {
    let checks = prereqs().advance(PrereqEvent::DepotChecked { present: true });
    match checks.action() {
        PrereqAction::AskVersion { message, program, argument } => {
            assert_eq!(message, "DepotDownloader is installed");
            assert_eq!((program.as_str(), argument.as_str()), ("dotnet", "--version"));
        }
        other => panic!("{other:?}"),
    }
}

#[test]
fn with_both_there_all_is_well() {
    let checks = prereqs()
        .advance(PrereqEvent::DepotChecked { present: true })
        .advance(PrereqEvent::DotnetRan { success: true, stdout: b"10.0.100\xff\r\n".to_vec() });
    match checks.action() {
        PrereqAction::Finish { messages } => {
            assert_eq!(messages, vec![".NET 10.0.100\u{fffd} detected", "Prerequisites working!"])
        }
        other => panic!("{other:?}"),
    }
    let checks = checks.advance(PrereqEvent::DotnetUnavailable);
    assert!(matches!(checks.step, PrereqStep::Ready { .. }));
}

#[test]
fn a_runtime_without_an_sdk_is_enough() {
    for stdout in [&b""[..], b"You intended to execute a .NET SDK command", b"10.0.100\n"] {
        let checks = prereqs()
            .advance(PrereqEvent::DepotChecked { present: true })
            .advance(PrereqEvent::DotnetRan { success: false, stdout: stdout.to_vec() });
        match checks.action() {
            PrereqAction::Finish { messages } => {
                assert_eq!(messages, vec![".NET runtime detected", "Prerequisites working!"])
            }
            other => panic!("{other:?}"),
        }
    }
}

#[test]
fn an_empty_version_is_shown_as_it_is() {
    for stdout in [&b""[..], b" \r\n"] {
        let checks = prereqs()
            .advance(PrereqEvent::DepotChecked { present: true })
            .advance(PrereqEvent::DotnetRan { success: true, stdout: stdout.to_vec() });
        match checks.action() {
            PrereqAction::Finish { messages } => {
                assert_eq!(messages, vec![".NET  detected", "Prerequisites working!"])
            }
            other => panic!("{other:?}"),
        }
    }
}

#[test]
fn a_missing_dotnet_ends_the_program() {
    let checks =
        prereqs().advance(PrereqEvent::DepotChecked { present: true }).advance(PrereqEvent::DotnetUnavailable);
    match checks.action() {
        PrereqAction::Quit { lines } => assert_eq!(
            lines,
            vec![" .NET runtime not found. Install it from https://dotnet.microsoft.com/download"]
        ),
        other => panic!("{other:?}"),
    }
}

#[test]
fn events_out_of_turn_change_nothing() {
    let checks = prereqs().advance(PrereqEvent::DotnetRan { success: true, stdout: vec![] });
    assert!(matches!(checks.step, PrereqStep::Depot));
    let mut setup = ensure_assemblies(&Branch::Release, false, String::new());
    setup.advance(AssemblyEvent::Exited { success: true });
    setup.advance(AssemblyEvent::Printed { line: "x".to_string() });
    assert_eq!(setup.step, AssemblyStep::Checking);
    assert!(setup.log.is_empty());
    let setup = ensure_oxide(&Branch::Release).advance(ReleaseEvent::Extracted);
    assert!(matches!(setup.step, ReleaseStep::Checking));
}

// Assemblies

fn assemblies(yes: bool, events: Vec<AssemblyEvent>) -> AssemblySetup {
    let mut setup = ensure_assemblies(&Branch::Staging, yes, ".exe".to_string());
    for event in events {
        setup.advance(event);
    }
    setup
}

#[test]
fn the_assemblies_are_looked_for() {
    match assemblies(false, vec![]).action() {
        AssemblyAction::Check { message, path } => {
            assert_eq!(message, "Checking for Rust Assemblies...");
            assert_eq!(joined(&path), "staging|RustDedicated_Data/Managed/Assembly-CSharp.dll");
        }
        other => panic!("{other:?}"),
    }
}

#[test]
fn present_assemblies_are_described() {
    let present = || AssemblyEvent::Checked { present: true };
    match assemblies(false, vec![present()]).action() {
        AssemblyAction::List { path } => assert_eq!(joined(&path), "staging|.DepotDownloader"),
        other => panic!("{other:?}"),
    }
    let listing = Some(vec![name("258551_123456.manifest")]);
    match assemblies(false, vec![present(), AssemblyEvent::Listed { listing }]).action() {
        AssemblyAction::Finish { message } => assert_eq!(message, "Libraries installed (manifest 123456)"),
        other => panic!("{other:?}"),
    }
    match assemblies(true, vec![present(), AssemblyEvent::Listed { listing: None }]).action() {
        AssemblyAction::Finish { message } => assert_eq!(message, "Libraries installed"),
        other => panic!("{other:?}"),
    }
}

#[test]
fn the_user_is_asked_before_a_download() {
    let setup = assemblies(false, vec![AssemblyEvent::Checked { present: false }]);
    match setup.action() {
        AssemblyAction::Ask { prompt } => assert_eq!(
            prompt,
            "Rust reference assemblies are missing. Would you like to download it now?"
        ),
        other => panic!("{other:?}"),
    }
}

#[test]
fn a_declined_download_is_an_error() {
    let events =
        vec![AssemblyEvent::Checked { present: false }, AssemblyEvent::Answered { confirmed: false }];
    match assemblies(false, events).action() {
        AssemblyAction::Fail { lines, error } => {
            assert!(lines.is_empty());
            assert_eq!(error, "download declined by user");
        }
        other => panic!("{other:?}"),
    }
}

#[test]
fn consent_starts_the_download() {
    let asked =
        assemblies(false, vec![AssemblyEvent::Checked { present: false }, AssemblyEvent::Answered { confirmed: true }]);
    let unasked = assemblies(true, vec![AssemblyEvent::Checked { present: false }]);
    for setup in [asked, unasked] {
        match setup.action() {
            AssemblyAction::Write { message, path, contents } => {
                assert_eq!(message, "Libraries missing. Installing now.");
                assert_eq!(joined(&path), "tools|managed.filelist");
                assert_eq!(contents, r"regex:^RustDedicated_Data/Managed/.*\.dll$");
            }
            other => panic!("{other:?}"),
        }
    }
}

#[test]
fn the_download_tool_is_run() {
    let setup = assemblies(true, vec![AssemblyEvent::Checked { present: false }, AssemblyEvent::Prepared]);
    match setup.action() {
        AssemblyAction::Run { message, program, args } => {
            assert_eq!(message, "Downloading Rust Assemblies...");
            assert_eq!(joined(&program), "tools|DepotDownloader.exe");
            assert_eq!(args.len(), 10);
        }
        other => panic!("{other:?}"),
    }
}

fn shown(args: &[CommandArg]) -> Vec<String> {
    args.iter()
        .map(|arg| match arg {
            CommandArg::Text(text) => text.clone(),
            CommandArg::Place(path) => format!("<{}>", joined(path)),
        })
        .collect()
}

#[test]
fn the_download_tool_gets_its_arguments() {
    assert_eq!(
        shown(&download_arguments(&Branch::Release)),
        vec!["-app", "258550", "-depot", "258551", "-dir", "<release>", "-filelist", "<tools|managed.filelist>"]
    );
    assert_eq!(
        shown(&download_arguments(&Branch::Staging)),
        vec![
            "-app", "258550", "-depot", "258551", "-dir", "<staging>", "-filelist", "<tools|managed.filelist>",
            "-branch", "staging"
        ]
    );
}

fn download(success: bool) -> AssemblySetup {
    assemblies(
        true,
        vec![
            AssemblyEvent::Checked { present: false },
            AssemblyEvent::Prepared,
            AssemblyEvent::Printed { line: "Connecting".to_string() },
            AssemblyEvent::Printed { line: "Got it".to_string() },
            AssemblyEvent::Exited { success },
        ],
    )
}

#[test]
fn a_finished_download_is_a_success() {
    match download(true).action() {
        AssemblyAction::Finish { message } => assert_eq!(message, "Rust assemblies installed successfully"),
        other => panic!("{other:?}"),
    }
}

#[test]
fn a_failed_download_shows_the_log() {
    match download(false).action() {
        AssemblyAction::Fail { lines, error } => {
            assert_eq!(lines, vec!["Connecting", "Got it"]);
            assert_eq!(error, "DepotDownloader failed");
        }
        other => panic!("{other:?}"),
    }
    let mut setup = download(false);
    setup.advance(AssemblyEvent::Exited { success: true });
    assert_eq!(setup.step, AssemblyStep::Failed);
}

#[test]
fn manifests_are_read_from_file_names() {
    assert_eq!(installed_manifest(&None), None);
    assert_eq!(installed_manifest(&Some(vec![])), None);
    let list = Some(vec![name("depot.config"), name("258551_42_old.manifest"), name("258551_43.manifest")]);
    assert_eq!(installed_manifest(&list), Some("42".to_string()));
    assert_eq!(installed_manifest(&Some(vec![name("258551.manifest"), name("1_2.manifest")])), None);
    assert_eq!(installed_manifest(&Some(vec![name("1_.manifest")])), Some(String::new()));
}

#[test]
fn unreadable_entries_hide_later_manifests() {
    assert_eq!(installed_manifest(&Some(vec![None, name("1_2.manifest")])), None);
    assert_eq!(installed_manifest(&Some(vec![name("1_2.manifest"), None])), Some("2".to_string()));
    assert_eq!(installed_manifest(&Some(vec![Some(Some(b"1_\xff.manifest".to_vec()))])), None);
    assert_eq!(installed_manifest(&Some(vec![Some(None)])), None);
}

// Releases

fn asset(name: &str, url: &str) -> Asset {
    Asset { name: name.to_string(), browser_download_url: url.to_string() }
}

fn release(assets: Vec<Asset>) -> Release {
    Release { tag_name: "v2".to_string(), assets }
}

fn fetching(setup: ReleaseSetup) -> ReleaseSetup {
    setup.advance(ReleaseEvent::Checked { present: false }).advance(ReleaseEvent::FolderMade)
}

#[test]
fn components_are_looked_for() {
    match ensure_oxide(&Branch::Release).action() {
        ReleaseAction::Check { message, path } => {
            assert_eq!(message, "Checking for Oxide...");
            assert_eq!(joined(&path), "release|RustDedicated_Data/Managed/Oxide.Rust.dll");
        }
        other => panic!("{other:?}"),
    }
    match ensure_compiler().action() {
        ReleaseAction::Check { message, path } => {
            assert_eq!(message, "Checking for OxideCompiler...");
            assert_eq!(joined(&path), "tools|compiler|OxideCompiler.dll");
        }
        other => panic!("{other:?}"),
    }
}

#[test]
fn present_components_stay() {
    for (setup, expected) in
        [(ensure_oxide(&Branch::Staging), "Oxide installed"), (ensure_compiler(), "OxideCompiler installed")]
    {
        match setup.advance(ReleaseEvent::Checked { present: true }).action() {
            ReleaseAction::Finish { message } => assert_eq!(message, expected),
            other => panic!("{other:?}"),
        }
    }
}

#[test]
fn only_the_compiler_gets_a_folder_of_its_own() {
    let missing = || ReleaseEvent::Checked { present: false };
    match ensure_compiler().advance(missing()).action() {
        ReleaseAction::MakeFolder { message, path } => {
            assert_eq!(message, "Downloading OxideCompiler...");
            assert_eq!(joined(&path), "tools|compiler");
        }
        other => panic!("{other:?}"),
    }
    match ensure_oxide(&Branch::Release).advance(missing()).action() {
        ReleaseAction::Fetch { message, url, agent } => {
            assert_eq!(agent, "oxidize");
            assert_eq!(message, "Downloading Oxide...");
            assert_eq!(url, "https://api.github.com/repos/OxideMod/Oxide.Rust/releases/latest");
        }
        other => panic!("{other:?}"),
    }
}

#[test]
fn the_latest_compiler_is_fetched() {
    match fetching(ensure_compiler()).action() {
        ReleaseAction::Fetch { url, agent, .. } => {
            assert_eq!(agent, "oxidize");
            assert_eq!(url, "https://api.github.com/repos/ItzPabz/oxidize/releases/latest")
        }
        other => panic!("{other:?}"),
    }
}

#[test]
fn the_archive_is_downloaded_and_extracted() {
    let found = release(vec![asset("x.zip", "u0"), asset("Oxide.Rust.zip", "u1"), asset("Oxide.Rust.zip", "u2")]);
    let setup = fetching(ensure_oxide(&Branch::Staging)).advance(ReleaseEvent::Fetched { release: found });
    match setup.action() {
        ReleaseAction::Download { message, url, agent, path } => {
            assert_eq!(agent, "oxidize");
            assert_eq!(message, "Downloading Oxide v2…");
            assert_eq!(url, "u1");
            assert_eq!(joined(&path), "tools|Oxide.Rust.zip");
        }
        other => panic!("{other:?}"),
    }
    let setup = setup.advance(ReleaseEvent::Downloaded);
    match setup.action() {
        ReleaseAction::Extract { archive, into } => {
            assert_eq!(joined(&archive), "tools|Oxide.Rust.zip");
            assert_eq!(joined(&into), "staging");
        }
        other => panic!("{other:?}"),
    }
    match setup.advance(ReleaseEvent::Extracted).action() {
        ReleaseAction::Finish { message } => assert_eq!(message, "Oxide installed successfully"),
        other => panic!("{other:?}"),
    }
}

#[test]
fn a_release_without_the_archive_is_an_error() {
    let found = release(vec![asset("Oxide.Rust.zip", "u")]);
    let setup = fetching(ensure_compiler()).advance(ReleaseEvent::Fetched { release: found });
    match setup.action() {
        ReleaseAction::Fail { message, error } => {
            assert_eq!(message, "Downloading OxideCompiler v2…");
            assert_eq!(error, "OxideCompiler.zip not found");
        }
        other => panic!("{other:?}"),
    }
}

#[test]
fn the_compiler_is_extracted_into_its_folder() {
    let found = release(vec![asset("OxideCompiler.zip", "u")]);
    let setup = fetching(ensure_compiler())
        .advance(ReleaseEvent::Fetched { release: found })
        .advance(ReleaseEvent::Downloaded);
    match setup.action() {
        ReleaseAction::Extract { archive, into } => {
            assert_eq!(joined(&archive), "tools|OxideCompiler.zip");
            assert_eq!(joined(&into), "tools|compiler");
        }
        other => panic!("{other:?}"),
    }
}

#[test]
fn assets_are_found_by_their_name() {
    let found = release(vec![asset("a", "1"), asset("b", "2"), asset("b", "3")]);
    assert_eq!(found.find_asset("b"), Some(1));
    assert_eq!(found.find_asset("c"), None);
}
