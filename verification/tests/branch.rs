use oxidize::branch::Branch;
use oxidize::path::{custom_dir, library_dir};

#[test]
fn folders_are_named_after_the_branch() {
    assert_eq!(Branch::Release.folder_name(), "release");
    assert_eq!(Branch::Staging.folder_name(), "staging");
}

#[test]
fn release_symbols() {
    assert_eq!(
        Branch::Release.preprocessor_symbols(),
        vec!["OXIDE", "OXIDEMOD", "RUST", "RUST_PUBLIC", "OXIDE_PUBLICIZED"]
    );
}

#[test]
fn staging_symbols() {
    assert_eq!(
        Branch::Staging.preprocessor_symbols(),
        vec!["OXIDE", "OXIDEMOD", "RUST", "RUST_STAGING", "OXIDE_PUBLICIZED"]
    );
}

#[test]
fn the_switch_selects_the_branch() {
    assert_eq!(Branch::from_staging(true), Branch::Staging);
    assert_eq!(Branch::from_staging(false), Branch::Release);
}

#[test]
fn libraries_are_below_the_branch_folder() {
    assert_eq!(library_dir(&Branch::Release).parts, vec!["release"]);
    assert_eq!(library_dir(&Branch::Staging).parts, vec!["staging"]);
    assert_eq!(custom_dir(&Branch::Staging).parts, vec!["staging", "custom"]);
}
