use oxidize::utils::{enters, traverse, Entry};

fn file(path: &'static str) -> Entry<&'static str> {
    let name = path.rsplit('/').next().unwrap();
    Entry::File { path, name: Some(name.as_bytes().to_vec()) }
}

fn folder(name: &str, entries: Vec<Entry<&'static str>>) -> Entry<&'static str> {
    Entry::Folder { name: Some(name.as_bytes().to_vec()), entries }
}

fn tree() -> Vec<Entry<&'static str>> {
    vec![
        file("b.dll"),
        folder("sub", vec![file("sub/c.dll"), file("sub/c.txt"), folder("deep", vec![file("sub/deep/d.dll")])]),
        folder(".DepotDownloader", vec![file(".DepotDownloader/x.dll")]),
        file("a.dll"),
        file("a.cs"),
        file(".dll"),
    ]
}

fn found(entries: &Vec<Entry<&'static str>>, ext: &str, recurse: bool) -> Vec<&'static str> {
    traverse(entries, ext, recurse).into_iter().copied().collect()
}

#[test]
fn files_are_found_in_the_order_of_the_listing() {
    assert_eq!(found(&tree(), "dll", true), vec!["b.dll", "sub/c.dll", "sub/deep/d.dll", "a.dll"]);
}

#[test]
fn without_recursion_folders_are_left_out() {
    assert_eq!(found(&tree(), "dll", false), vec!["b.dll", "a.dll"]);
    assert_eq!(found(&tree(), "cs", false), vec!["a.cs"]);
}

#[test]
fn a_folder_is_no_file() {
    assert_eq!(found(&vec![folder("x.dll", vec![])], "dll", true), Vec::<&str>::new());
}

#[test]
fn the_state_of_the_download_tool_is_never_entered() {
    assert!(!enters(&Some(b".DepotDownloader".to_vec()), true));
    assert!(enters(&Some(b"Managed".to_vec()), true));
    assert!(!enters(&Some(b"Managed".to_vec()), false));
    assert!(enters(&None, true));
}

#[test]
fn unread_folders_make_no_difference_here() {
    let full = vec![folder(".DepotDownloader", vec![file("x.dll")]), file("y.dll")];
    let bare = vec![folder(".DepotDownloader", vec![]), file("y.dll")];
    assert_eq!(found(&full, "dll", true), found(&bare, "dll", true));
}

#[test]
fn nothing_is_found_in_nothing() {
    assert_eq!(found(&vec![], "cs", true), Vec::<&str>::new());
}
