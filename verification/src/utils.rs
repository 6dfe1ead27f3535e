//! Finding files by their extension.
use vstd::multiset::Multiset;
use vstd::prelude::*;
use vstd::utf8::*;

use crate::path::{has_extension, has_name, is_named, name_bytes, named_with_extension};

verus! {

/// What stands in a folder. `name` is the last component of the path, as `FilePath` has it; `path`
/// is whatever the caller finds the file again by. The entries of a folder that is not entered
/// need not be listed.
pub enum Entry<P> {
    File { path: P, name: Option<Vec<u8>> },
    Folder { name: Option<Vec<u8>>, entries: Vec<Entry<P>> },
}

/// A folder called `name` is searched too. That of the download tool never is.
pub open spec fn entered(name: Option<Seq<u8>>, recurse: bool) -> bool {
    recurse && !is_named(name, ".DepotDownloader"@)
}

/// The files with the extension `ext` at an entry of a folder.
pub open spec fn found_at<P>(entry: Entry<P>, ext: Seq<char>, recurse: bool) -> Seq<P>
    decreases entry,
{
    match entry {
        Entry::File { path, name } => if named_with_extension(name_bytes(name), ext) {
            seq![path]
        } else {
            seq![]
        },
        Entry::Folder { name, entries } => if entered(name_bytes(name), recurse) {
            found_in(entries@, ext, recurse)
        } else {
            seq![]
        },
    }
}

/// The files with the extension `ext` among the entries of a folder, in the order of the entries.
pub open spec fn found_in<P>(entries: Seq<Entry<P>>, ext: Seq<char>, recurse: bool) -> Seq<P>
    decreases entries,
{
    if entries.len() == 0 {
        seq![]
    } else {
        found_in(entries.drop_last(), ext, recurse) + found_at(entries.last(), ext, recurse)
    }
}

/// Whether a folder called `name` is searched too.
pub fn enters(name: &Option<Vec<u8>>, recurse: bool) -> (enter: bool)
    ensures
        enter == entered(name_bytes(*name), recurse),
        enter == (recurse && !(name is Some && name->0@ == encode_utf8(".DepotDownloader"@))),
{
    recurse && !has_name(name, ".DepotDownloader")
}

/// The files with the extension `ext` among `entries` and, with `recurse`, in the folders below,
/// in the order in which they are listed.
pub fn traverse<'a, P>(entries: &'a Vec<Entry<P>>, ext: &str, recurse: bool) -> (found: Vec<&'a P>)
    ensures
        found@.map_values(|path: &P| *path) == found_in(entries@, ext@, recurse),
        found@.len() == found_in(entries@, ext@, recurse).len(),
        forall|i: int|
            0 <= i < found@.len() ==> *(#[trigger] found@[i]) == found_in(
                entries@,
                ext@,
                recurse,
            )[i],
    decreases entries,
{
    let mut found: Vec<&'a P> = Vec::new();
    let mut i: usize = 0;
    assert(found@.map_values(|path: &P| *path) =~= found_in(entries@.take(0), ext@, recurse));
    while i < entries.len()
        invariant
            i <= entries@.len(),
            found@.map_values(|path: &P| *path) == found_in(entries@.take(i as int), ext@, recurse),
        decreases entries@.len() - i,
    {
        let ghost before = found@;
        let ghost seen = entries@.take(i + 1);
        assert(seen.drop_last() =~= entries@.take(i as int));
        assert(seen.last() == entries@[i as int]);
        match &entries[i] {
            Entry::File { path, name } => {
                if has_extension(name, ext) {
                    found.push(path);
                }
            },
            Entry::Folder { name, entries: below } => {
                if enters(name, recurse) {
                    let mut nested = traverse(below, ext, recurse);
                    found.append(&mut nested);
                }
            },
        }
        i += 1;
        assert(found@.map_values(|path: &P| *path) =~= before.map_values(|path: &P| *path)
            + found_at(entries@[i - 1], ext@, recurse));
    }
    assert(entries@.take(i as int) =~= entries@);
    assert forall|k: int| 0 <= k < found@.len() implies *(#[trigger] found@[k]) == found_in(
        entries@,
        ext@,
        recurse,
    )[k] by {
        assert(found@.map_values(|path: &P| *path)[k] == *found@[k]);
    }
    found
}

// ---------------------------------------------------------------------------
// What is found

/// The file `path`, called `name`, is at `entry` or below it in folders that are entered.
pub open spec fn holds_at<P>(entry: Entry<P>, recurse: bool, path: P, name: Option<Vec<u8>>) -> bool
    decreases entry,
{
    match entry {
        Entry::File { .. } => entry == (Entry::File { path, name }),
        Entry::Folder { name: folder, entries } => entered(name_bytes(folder), recurse) && holds(
            entries@,
            recurse,
            path,
            name,
        ),
    }
}

/// The file `path`, called `name`, is among `entries` or below them in folders that are entered.
pub open spec fn holds<P>(
    entries: Seq<Entry<P>>,
    recurse: bool,
    path: P,
    name: Option<Vec<u8>>,
) -> bool
    decreases entries,
{
    entries.len() > 0 && (holds_at(entries.last(), recurse, path, name) || holds(
        entries.drop_last(),
        recurse,
        path,
        name,
    ))
}

/// Just the files with the extension are found, wherever they are in folders that are entered.
pub proof fn files_with_the_extension_are_found<P>(
    entries: Seq<Entry<P>>,
    ext: Seq<char>,
    recurse: bool,
    path: P,
)
    ensures
        found_in(entries, ext, recurse).contains(path) <==> exists|name: Option<Vec<u8>>|
            #[trigger] holds(entries, recurse, path, name) && named_with_extension(
                name_bytes(name),
                ext,
            ),
    decreases entries,
{
    reveal_with_fuel(holds, 2);
    reveal_with_fuel(found_in, 2);
    if entries.len() > 0 {
        let front = entries.drop_last();
        let last = entries.last();
        files_with_the_extension_are_found(front, ext, recurse, path);
        lemma_found_at(last, ext, recurse, path);
        let a = found_in(front, ext, recurse);
        let b = found_at(last, ext, recurse);
        assert((a + b).contains(path) <==> a.contains(path) || b.contains(path)) by {
            if a.contains(path) {
                let k = choose|k: int| 0 <= k < a.len() && a[k] == path;
                assert((a + b)[k] == path);
            }
            if b.contains(path) {
                let k = choose|k: int| 0 <= k < b.len() && b[k] == path;
                assert((a + b)[a.len() + k] == path);
            }
        }
        if a.contains(path) {
            let name = choose|name: Option<Vec<u8>>| #[trigger]
                holds(front, recurse, path, name) && named_with_extension(name_bytes(name), ext);
            assert(holds(entries, recurse, path, name));
        }
        if b.contains(path) {
            let name = choose|name: Option<Vec<u8>>| #[trigger]
                holds_at(last, recurse, path, name) && named_with_extension(name_bytes(name), ext);
            assert(holds(entries, recurse, path, name));
        }
        assert forall|name: Option<Vec<u8>>| #[trigger]
            holds(entries, recurse, path, name) && named_with_extension(
                name_bytes(name),
                ext,
            ) implies (a + b).contains(path) by {
            assert(holds_at(last, recurse, path, name) || holds(front, recurse, path, name));
        }
        assert(found_in(entries, ext, recurse) == a + b);
    }
}

proof fn lemma_found_at<P>(entry: Entry<P>, ext: Seq<char>, recurse: bool, path: P)
    ensures
        found_at(entry, ext, recurse).contains(path) <==> exists|name: Option<Vec<u8>>|
            #[trigger] holds_at(entry, recurse, path, name) && named_with_extension(
                name_bytes(name),
                ext,
            ),
    decreases entry,
{
    reveal_with_fuel(holds_at, 2);
    reveal_with_fuel(found_at, 2);
    match entry {
        Entry::File { path: own, name } => {
            if named_with_extension(name_bytes(name), ext) {
                assert(found_at(entry, ext, recurse)[0] == own);
                if own == path {
                    assert(holds_at(entry, recurse, path, name));
                }
            }
        },
        Entry::Folder { name: folder, entries } => {
            files_with_the_extension_are_found(entries@, ext, recurse, path);
            if found_at(entry, ext, recurse).contains(path) {
                let name = choose|name: Option<Vec<u8>>| #[trigger]
                    holds(entries@, recurse, path, name) && named_with_extension(
                        name_bytes(name),
                        ext,
                    );
                assert(holds_at(entry, recurse, path, name));
            }
            assert forall|name: Option<Vec<u8>>| #[trigger]
                holds_at(entry, recurse, path, name) && named_with_extension(
                    name_bytes(name),
                    ext,
                ) implies found_at(entry, ext, recurse).contains(path) by {
                assert(holds(entries@, recurse, path, name));
            }
        },
    }
}

/// The listings are the same but for what is in folders that are not entered.
pub open spec fn same_where_entered<P>(a: Entry<P>, b: Entry<P>, recurse: bool) -> bool
    decreases a,
{
    match (a, b) {
        (Entry::File { .. }, Entry::File { .. }) => a == b,
        (
            Entry::Folder { name: m, entries: below_a },
            Entry::Folder { name: n, entries: below_b },
        ) => m == n && (entered(name_bytes(m), recurse) ==> all_same_where_entered(
            below_a@,
            below_b@,
            recurse,
        )),
        _ => false,
    }
}

/// The listings are the same but for what is in folders that are not entered.
pub open spec fn all_same_where_entered<P>(
    a: Seq<Entry<P>>,
    b: Seq<Entry<P>>,
    recurse: bool,
) -> bool
    decreases a,
{
    &&& a.len() == b.len()
    &&& a.len() > 0 ==> same_where_entered(a.last(), b.last(), recurse) && all_same_where_entered(
        a.drop_last(),
        b.drop_last(),
        recurse,
    )
}

/// A folder that is not entered need not be listed: what is in it makes no difference.
pub proof fn unentered_folders_make_no_difference<P>(
    a: Seq<Entry<P>>,
    b: Seq<Entry<P>>,
    ext: Seq<char>,
    recurse: bool,
)
    requires
        all_same_where_entered(a, b, recurse),
    ensures
        found_in(a, ext, recurse) == found_in(b, ext, recurse),
    decreases a,
{
    reveal_with_fuel(same_where_entered, 2);
    reveal_with_fuel(all_same_where_entered, 2);
    reveal_with_fuel(found_at, 2);
    reveal_with_fuel(found_in, 2);
    if a.len() > 0 {
        unentered_folders_make_no_difference(a.drop_last(), b.drop_last(), ext, recurse);
        match (a.last(), b.last()) {
            (Entry::Folder { name, entries: below_a }, Entry::Folder { entries: below_b, .. }) => {
                if entered(name_bytes(name), recurse) {
                    unentered_folders_make_no_difference(below_a@, below_b@, ext, recurse);
                }
            },
            _ => {},
        }
    }
}

/// Searching the folders below finds all that is found without, and maybe more.
pub proof fn recursion_finds_no_less<P>(entries: Seq<Entry<P>>, ext: Seq<char>, path: P)
    requires
        found_in(entries, ext, false).contains(path),
    ensures
        found_in(entries, ext, true).contains(path),
{
    files_with_the_extension_are_found(entries, ext, false, path);
    files_with_the_extension_are_found(entries, ext, true, path);
    let name = choose|name: Option<Vec<u8>>| #[trigger]
        holds(entries, false, path, name) && named_with_extension(name_bytes(name), ext);
    lemma_held_without_recursion(entries, path, name);
}

proof fn lemma_held_without_recursion<P>(entries: Seq<Entry<P>>, path: P, name: Option<Vec<u8>>)
    requires
        holds(entries, false, path, name),
    ensures
        holds(entries, true, path, name),
    decreases entries,
{
    reveal_with_fuel(holds, 2);
    reveal_with_fuel(holds_at, 2);
    if !holds_at(entries.last(), false, path, name) {
        lemma_held_without_recursion(entries.drop_last(), path, name);
    }
}

/// All that is found in the folders that stand among `entries`, as far as they are entered, each
/// file as often as it is found.
pub open spec fn found_below<P>(entries: Seq<Entry<P>>, ext: Seq<char>) -> Multiset<P>
    decreases entries.len(),
{
    if entries.len() == 0 {
        Multiset::empty()
    } else {
        found_below(entries.drop_last(), ext).add(
            match entries.last() {
                Entry::File { .. } => Multiset::empty(),
                Entry::Folder { name, entries: below } => if entered(name_bytes(name), true) {
                    found_in(below@, ext, true).to_multiset()
                } else {
                    Multiset::empty()
                },
            },
        )
    }
}

/// Searching the folders below finds what is found without, and besides that just what is found in
/// the folders that are entered.
pub proof fn recursion_adds_the_folders_below<P>(entries: Seq<Entry<P>>, ext: Seq<char>)
    ensures
        found_in(entries, ext, true).to_multiset() == found_in(entries, ext, false).to_multiset().add(
            found_below(entries, ext),
        ),
    decreases entries.len(),
{
    broadcast use vstd::seq_lib::group_to_multiset_ensures;

    reveal_with_fuel(found_in, 2);
    reveal_with_fuel(found_at, 2);
    let none = Seq::<P>::empty();
    assert(none.to_multiset() =~= Multiset::empty());
    if entries.len() == 0 {
        assert(found_in(entries, ext, true) =~= none);
        assert(found_in(entries, ext, false) =~= none);
        assert(found_in(entries, ext, true).to_multiset() =~= found_in(
            entries,
            ext,
            false,
        ).to_multiset().add(found_below(entries, ext)));
    } else {
        let front = entries.drop_last();
        let last = entries.last();
        recursion_adds_the_folders_below(front, ext);
        vstd::seq_lib::lemma_multiset_commutative(
            found_in(front, ext, true),
            found_at(last, ext, true),
        );
        vstd::seq_lib::lemma_multiset_commutative(
            found_in(front, ext, false),
            found_at(last, ext, false),
        );
        assert(found_at(last, ext, false) == none || found_at(last, ext, true) == found_at(
            last,
            ext,
            false,
        ));
        assert(found_in(entries, ext, true).to_multiset() =~= found_in(
            entries,
            ext,
            false,
        ).to_multiset().add(found_below(entries, ext)));
    }
}

/// A path fixes the name of its file: no two files with the same path and different names are held.
pub open spec fn paths_fix_names<P>(entries: Seq<Entry<P>>, recurse: bool) -> bool {
    forall|path: P, a: Option<Vec<u8>>, b: Option<Vec<u8>>|
        #[trigger] holds(entries, recurse, path, a) && #[trigger] holds(entries, recurse, path, b)
            ==> name_bytes(a) == name_bytes(b)
}

/// A file is found under one extension only: searches for two different extensions have no file in
/// common, where a path fixes the name.
pub proof fn extensions_share_no_files<P>(
    entries: Seq<Entry<P>>,
    recurse: bool,
    ext: Seq<char>,
    other: Seq<char>,
    path: P,
)
    requires
        paths_fix_names(entries, recurse),
        ext != other,
    ensures
        !(found_in(entries, ext, recurse).contains(path) && found_in(
            entries,
            other,
            recurse,
        ).contains(path)),
{
    if found_in(entries, ext, recurse).contains(path) && found_in(
        entries,
        other,
        recurse,
    ).contains(path) {
        files_with_the_extension_are_found(entries, ext, recurse, path);
        files_with_the_extension_are_found(entries, other, recurse, path);
        let a = choose|name: Option<Vec<u8>>| #[trigger]
            holds(entries, recurse, path, name) && named_with_extension(name_bytes(name), ext);
        let b = choose|name: Option<Vec<u8>>| #[trigger]
            holds(entries, recurse, path, name) && named_with_extension(name_bytes(name), other);
        assert(name_bytes(a) == name_bytes(b));
        encode_utf8_decode_utf8(ext);
        encode_utf8_decode_utf8(other);
    }
}

// ---------------------------------------------------------------------------
// What a listing adds

/// Nothing is found where nothing is listed, and what is found in two listings, one after the
/// other, is what is found in each.
pub proof fn listings_are_searched_in_order<P>(
    a: Seq<Entry<P>>,
    b: Seq<Entry<P>>,
    ext: Seq<char>,
    recurse: bool,
)
    ensures
        found_in(Seq::<Entry<P>>::empty(), ext, recurse) == Seq::<P>::empty(),
        found_in(a + b, ext, recurse) == found_in(a, ext, recurse) + found_in(b, ext, recurse),
    decreases b.len(),
{
    if b.len() == 0 {
        assert(a + b =~= a);
        assert(found_in(b, ext, recurse) =~= Seq::<P>::empty());
        assert(found_in(a, ext, recurse) + found_in(b, ext, recurse) =~= found_in(a, ext, recurse));
    } else {
        assert((a + b).drop_last() =~= a + b.drop_last());
        assert((a + b).last() == b.last());
        listings_are_searched_in_order(a, b.drop_last(), ext, recurse);
        assert(found_in(a + b, ext, recurse) =~= found_in(a, ext, recurse) + found_in(
            b,
            ext,
            recurse,
        ));
    }
}

/// One entry is found as it is found at its place.
proof fn lemma_found_in_one<P>(entry: Entry<P>, ext: Seq<char>, recurse: bool)
    ensures
        found_in(seq![entry], ext, recurse) == found_at(entry, ext, recurse),
{
    reveal_with_fuel(found_in, 2);
    let one = seq![entry];
    assert(one.drop_last() =~= Seq::<Entry<P>>::empty());
    assert(found_in(one.drop_last(), ext, recurse) =~= Seq::<P>::empty());
    assert(found_in(one, ext, recurse) =~= found_at(entry, ext, recurse));
}

/// A file is found, once and by its path, just where its name is something, a full stop and the
/// extension, whether folders are searched or not.
pub proof fn files_are_found_by_their_name<P>(
    path: P,
    name: Option<Vec<u8>>,
    ext: Seq<char>,
    recurse: bool,
)
    ensures
        found_in(seq![Entry::File { path, name }], ext, recurse) == if {
            &&& name is Some
            &&& name->0@ != seq![46u8, 46u8]
            &&& !encode_utf8(ext).contains(46u8)
            &&& exists|stem: Seq<u8>|
                stem.len() > 0 && name->0@ == #[trigger] (stem + seq![46u8] + encode_utf8(ext))
        } {
            seq![path]
        } else {
            Seq::<P>::empty()
        },
{
    lemma_found_in_one(Entry::File { path, name }, ext, recurse);
    if name is Some {
        crate::path::names_end_in_their_extension(name->0@, ext);
    }
}

/// A folder adds all that is found in it, where folders are searched, whatever it is called; only
/// that called `.DepotDownloader` adds nothing. Where folders are not searched, none adds anything.
pub proof fn folders_add_what_is_in_them<P>(
    name: Option<Vec<u8>>,
    entries: Vec<Entry<P>>,
    ext: Seq<char>,
)
    ensures
        !(name is Some && name->0@ == encode_utf8(".DepotDownloader"@)) ==> found_in(
            seq![Entry::Folder { name, entries }],
            ext,
            true,
        ) == found_in(entries@, ext, true),
        name is Some && name->0@ == encode_utf8(".DepotDownloader"@) ==> found_in(
            seq![Entry::Folder { name, entries }],
            ext,
            true,
        ) == Seq::<P>::empty(),
        found_in(seq![Entry::Folder { name, entries }], ext, false) == Seq::<P>::empty(),
{
    let folder = Entry::Folder { name, entries };
    lemma_found_in_one(folder, ext, true);
    lemma_found_in_one(folder, ext, false);
    reveal_with_fuel(found_at, 2);
}

/// What is in a folder is found in every listing that holds the folder, unless the folder is called
/// `.DepotDownloader`.
pub proof fn what_is_in_folders_is_found<P>(
    listing: Seq<Entry<P>>,
    at: int,
    name: Option<Vec<u8>>,
    entries: Vec<Entry<P>>,
    ext: Seq<char>,
    path: P,
)
    requires
        0 <= at < listing.len(),
        listing[at] == (Entry::Folder { name, entries }),
        !(name is Some && name->0@ == encode_utf8(".DepotDownloader"@)),
        found_in(entries@, ext, true).contains(path),
    ensures
        found_in(listing, ext, true).contains(path),
{
    let (before, one, behind) = (listing.take(at), seq![listing[at]], listing.skip(at + 1));
    assert(listing =~= before + one + behind);
    listings_are_searched_in_order(before + one, behind, ext, true);
    listings_are_searched_in_order(before, one, ext, true);
    folders_add_what_is_in_them(name, entries, ext);
    let inner = found_in(entries@, ext, true);
    let k = choose|k: int| 0 <= k < inner.len() && inner[k] == path;
    assert(found_in(listing, ext, true)[found_in(before, ext, true).len() + k] == path);
}

} // verus!
