//! Paths: the file names that decisions are made on, and the places below the data folder.
use vstd::prelude::*;
use vstd::utf8::*;

use crate::branch::Branch;
use crate::bytes::{decode, encodes};
use crate::text::texts;

verus! {

/// The byte of a full stop.
pub const DOT: u8 = 46;

/// A path, as far as it is looked at: the text that stands for it, and its last component.
///
/// `name` holds the bytes of the file name, which need not be UTF-8. A path that ends in no file
/// name has none.
#[derive(Debug)]
pub struct FilePath {
    pub text: String,
    pub name: Option<Vec<u8>>,
}

/// The bytes of a file name that may be missing.
pub open spec fn name_bytes(name: Option<Vec<u8>>) -> Option<Seq<u8>> {
    match name {
        Some(bytes) => Some(bytes@),
        None => None,
    }
}

/// The full stop at index `i` parts the file name into stem and extension: it is the last one,
/// something stands before it, and the name is not that of the parent folder.
pub open spec fn parts_at(name: Seq<u8>, i: int) -> bool {
    &&& 0 < i < name.len()
    &&& name[i] == DOT
    &&& forall|k: int| i < k < name.len() ==> name[k] != DOT
    &&& name != seq![DOT, DOT]
}

/// What follows the full stop that parts the name, if one does.
pub open spec fn extension_of(name: Seq<u8>) -> Option<Seq<u8>> {
    if exists|i: int| parts_at(name, i) {
        Some(name.skip(1 + choose|i: int| parts_at(name, i)))
    } else {
        None
    }
}

/// What stands before the full stop that parts the name, or the whole name if none does.
pub open spec fn stem_of(name: Seq<u8>) -> Seq<u8> {
    if exists|i: int| parts_at(name, i) {
        name.take(choose|i: int| parts_at(name, i))
    } else {
        name
    }
}

/// The file name is there and has the extension `ext`.
pub open spec fn named_with_extension(name: Option<Seq<u8>>, ext: Seq<char>) -> bool {
    name is Some && extension_of(name->0) == Some(encode_utf8(ext))
}

/// The file name is there and reads `text`.
pub open spec fn is_named(name: Option<Seq<u8>>, text: Seq<char>) -> bool {
    name == Some(encode_utf8(text))
}

/// The stem as text, where there is a file name and its stem is UTF-8.
pub open spec fn stem_text_of(name: Option<Seq<u8>>) -> Option<Seq<char>> {
    if name is Some && valid_utf8(stem_of(name->0)) {
        Some(decode_utf8(stem_of(name->0)))
    } else {
        None
    }
}

/// At most one full stop parts a name.
proof fn lemma_parts_once(name: Seq<u8>, i: int)
    requires
        parts_at(name, i),
    ensures
        i == choose|j: int| parts_at(name, j),
{
    let j = choose|j: int| parts_at(name, j);
    assert(parts_at(name, j));
    if i < j {
        assert(name[j] != DOT);
    } else if j < i {
        assert(name[i] != DOT);
    }
}

/// Stem and extension, with the full stop between them, make the file name.
pub proof fn stem_and_extension_make_the_name(name: Seq<u8>)
    ensures
        match extension_of(name) {
            Some(extension) => stem_of(name) + seq![DOT] + extension == name
                && !extension.contains(DOT) && stem_of(name).len() > 0,
            None => stem_of(name) == name,
        },
{
    if exists|i: int| parts_at(name, i) {
        let i = choose|i: int| parts_at(name, i);
        assert(parts_at(name, i));
        let extension = name.skip(1 + i);
        assert(name.take(i) + seq![DOT] + extension =~= name);
        assert forall|k: int| 0 <= k < extension.len() implies extension[k] != DOT by {
            assert(extension[k] == name[1 + i + k]);
        }
    }
}

/// A stem and an extension can be read off the file name that they were put together to, unless
/// the stem is empty, the extension has a full stop in it, or the name is that of the parent folder.
pub proof fn names_are_taken_apart(stem: Seq<u8>, extension: Seq<u8>)
    requires
        stem.len() > 0,
        !extension.contains(DOT),
        stem + seq![DOT] + extension != seq![DOT, DOT],
    ensures
        stem_of(stem + seq![DOT] + extension) == stem,
        extension_of(stem + seq![DOT] + extension) == Some(extension),
{
    let name = stem + seq![DOT] + extension;
    let i = stem.len() as int;
    assert forall|k: int| i < k < name.len() implies name[k] != DOT by {
        assert(name[k] == extension[k - i - 1]);
        assert(extension.contains(extension[k - i - 1]));
    }
    assert(parts_at(name, i));
    lemma_parts_once(name, i);
    assert(name.take(i) =~= stem);
    assert(name.skip(1 + i) =~= extension);
}

/// The index of the full stop that parts the name.
fn parting_dot(name: &[u8]) -> (at: Option<usize>)
    ensures
        match at {
            Some(i) => parts_at(name@, i as int),
            None => forall|i: int| !parts_at(name@, i),
        },
{
    if name.len() == 2 && name[0] == DOT && name[1] == DOT {
        assert(name@ =~= seq![DOT, DOT]);
        return None;
    }
    let mut i: usize = name.len();
    while i > 0
        invariant
            i <= name@.len(),
            name@ != seq![DOT, DOT],
            forall|k: int| i <= k < name@.len() ==> name@[k] != DOT,
        decreases i,
    {
        i -= 1;
        if name[i] == DOT {
            if i > 0 {
                assert(parts_at(name@, i as int));
                return Some(i);
            }
            return None;
        }
    }
    None
}

/// Whether there is a file name with the extension `ext`.
pub fn has_extension(name: &Option<Vec<u8>>, ext: &str) -> (has: bool)
    ensures
        has == named_with_extension(name_bytes(*name), ext@),
        has ==> name is Some && name->0@.len() > encode_utf8(ext@).len() + 1 && name->0@.skip(
            name->0@.len() - encode_utf8(ext@).len() - 1,
        ) == seq![46u8] + encode_utf8(ext@),
{
    match name {
        None => false,
        Some(bytes) => match parting_dot(bytes.as_slice()) {
            None => false,
            Some(i) => {
                proof {
                    lemma_parts_once(bytes@, i as int);
                }
                let end: usize = bytes.len();
                let extension = vstd::slice::slice_subrange(bytes.as_slice(), i + 1, end);
                assert(extension@ =~= bytes@.skip(i + 1));
                assert(bytes@.skip(i as int) =~= seq![46u8] + extension@);
                encodes(extension, ext)
            },
        },
    }
}

/// Whether there is a file name and it reads `text`.
pub fn has_name(name: &Option<Vec<u8>>, text: &str) -> (has: bool)
    ensures
        has == is_named(name_bytes(*name), text@),
        name is None ==> has == false,
        name matches Some(bytes) ==> has == (bytes@ == encode_utf8(text@)),
{
    match name {
        None => false,
        Some(bytes) => encodes(bytes.as_slice(), text),
    }
}

/// The stem of the file name, where there is one and it is UTF-8.
pub fn stem_text(name: &Option<Vec<u8>>) -> (stem: Option<String>)
    ensures
        match stem {
            Some(text) => stem_text_of(name_bytes(*name)) == Some(text@),
            None => stem_text_of(name_bytes(*name)) is None,
        },
{
    match name {
        None => None,
        Some(bytes) => {
            let end: usize = match parting_dot(bytes.as_slice()) {
                Some(i) => {
                    proof {
                        lemma_parts_once(bytes@, i as int);
                    }
                    i
                },
                None => bytes.len(),
            };
            let stem = vstd::slice::slice_subrange(bytes.as_slice(), 0, end);
            assert(stem@ =~= stem_of(bytes@));
            match decode(stem) {
                Ok(text) => Some(text),
                Err(_) => None,
            }
        },
    }
}

// ---------------------------------------------------------------------------
// Places below the data folder

/// A place below the folder that holds this program's data: the components to append, in order.
#[derive(Debug)]
pub struct DataPath {
    pub parts: Vec<String>,
}

impl View for DataPath {
    type V = Seq<Seq<char>>;

    open spec fn view(&self) -> Seq<Seq<char>> {
        texts(self.parts@)
    }
}

impl DataPath {
    /// The data folder itself.
    pub fn root() -> (path: DataPath)
        ensures
            path@ == Seq::<Seq<char>>::empty(),
            path.parts@.len() == 0,
    {
        let path = DataPath { parts: Vec::new() };
        assert(path@ =~= Seq::<Seq<char>>::empty());
        path
    }

    /// The place `name` inside this one.
    pub fn join(self, name: &str) -> (path: DataPath)
        ensures
            path@ == self@.push(name@),
            path.parts@.len() == self.parts@.len() + 1,
            forall|i: int|
                0 <= i < self.parts@.len() ==> (#[trigger] path.parts@[i])@ == self.parts@[i]@,
            path.parts@[self.parts@.len() as int]@ == name@,
    {
        let mut parts = self.parts;
        parts.push(name.to_owned());
        let path = DataPath { parts };
        assert(path@ =~= self@.push(name@));
        path
    }
}

/// Where the libraries of `branch` are.
pub open spec fn library_place(branch: Branch) -> Seq<Seq<char>> {
    seq![branch.folder()]
}

/// Where users put further libraries for `branch`.
pub open spec fn custom_place(branch: Branch) -> Seq<Seq<char>> {
    seq![branch.folder(), "custom"@]
}

/// Where the libraries of `branch` are.
pub fn library_dir(branch: &Branch) -> (path: DataPath)
    ensures
        path@ == library_place(*branch),
        path.parts@.len() == 1,
        branch is Release ==> path.parts@[0]@ == "release"@,
        branch is Staging ==> path.parts@[0]@ == "staging"@,
{
    let path = DataPath::root().join(branch.folder_name());
    assert(path@ =~= library_place(*branch));
    path
}

/// Where users put further libraries for `branch`.
pub fn custom_dir(branch: &Branch) -> (path: DataPath)
    ensures
        path@ == custom_place(*branch),
        path.parts@.len() == 2,
        branch is Release ==> path.parts@[0]@ == "release"@,
        branch is Staging ==> path.parts@[0]@ == "staging"@,
        path.parts@[1]@ == "custom"@,
{
    let path = library_dir(branch).join("custom");
    assert(path@ =~= custom_place(*branch));
    path
}

// ---------------------------------------------------------------------------
// What names and places are

/// A file name is the bytes that were given for it, and is missing just where none were.
pub proof fn names_are_their_bytes(bytes: Vec<u8>)
    ensures
        name_bytes(Some(bytes)) == Some(bytes@),
        name_bytes(None) is None,
{
}

/// A file has an extension just where its name is something, a full stop and the extension, with no
/// full stop in the extension, and is not that of the parent folder. A missing name has none.
pub proof fn names_end_in_their_extension(name: Seq<u8>, ext: Seq<char>)
    ensures
        named_with_extension(Some(name), ext) <==> {
            &&& name != seq![46u8, 46u8]
            &&& !encode_utf8(ext).contains(46u8)
            &&& exists|stem: Seq<u8>|
                stem.len() > 0 && name == #[trigger] (stem + seq![46u8] + encode_utf8(ext))
        },
        !named_with_extension(None, ext),
{
    let extension = encode_utf8(ext);
    if named_with_extension(Some(name), ext) {
        stem_and_extension_make_the_name(name);
        let stem = stem_of(name);
        assert(name == stem + seq![46u8] + extension);
    }
    if name != seq![46u8, 46u8] && !extension.contains(46u8) && exists|stem: Seq<u8>|
        stem.len() > 0 && name == #[trigger] (stem + seq![46u8] + extension) {
        let stem = choose|stem: Seq<u8>|
            stem.len() > 0 && name == #[trigger] (stem + seq![46u8] + extension);
        names_are_taken_apart(stem, extension);
    }
}

/// A name without a full stop behind its first byte, and that of the parent folder, has no extension
/// and is all stem.
pub proof fn names_without_extension_are_all_stem(name: Seq<u8>)
    requires
        name == seq![46u8, 46u8] || forall|i: int| 0 < i < name.len() ==> name[i] != 46,
    ensures
        extension_of(name) is None,
        stem_of(name) == name,
{
    assert(forall|i: int| !parts_at(name, i));
}

/// The stem of a file name is what stands before the full stop of its extension, as text. It is
/// missing just where the name is missing or those bytes are no text.
pub proof fn stems_stand_before_the_extension(stem: Seq<u8>, extension: Seq<u8>)
    requires
        stem.len() > 0,
        !extension.contains(46u8),
        stem + seq![46u8] + extension != seq![46u8, 46u8],
    ensures
        valid_utf8(stem) ==> stem_text_of(Some(stem + seq![46u8] + extension)) == Some(
            decode_utf8(stem),
        ),
        !valid_utf8(stem) ==> stem_text_of(Some(stem + seq![46u8] + extension)) is None,
        stem_text_of(None) is None,
{
    names_are_taken_apart(stem, extension);
}

/// The stem of a name without an extension is the whole name, as text.
pub proof fn stems_may_be_whole_names(name: Seq<u8>)
    requires
        name == seq![46u8, 46u8] || forall|i: int| 0 < i < name.len() ==> name[i] != 46,
    ensures
        valid_utf8(name) ==> stem_text_of(Some(name)) == Some(decode_utf8(name)),
        !valid_utf8(name) ==> stem_text_of(Some(name)) is None,
{
    names_without_extension_are_all_stem(name);
}

/// A place is its components, one for one and in order.
pub proof fn places_are_their_components(path: DataPath)
    ensures
        path@.len() == path.parts@.len(),
        forall|i: int| 0 <= i < path.parts@.len() ==> #[trigger] path@[i] == path.parts@[i]@,
{
}

/// What users put in for a branch lies below the libraries of that branch, and so below no other.
pub proof fn further_libraries_lie_below_their_branch(branch: Branch, other: Branch)
    ensures
        library_place(branch) == seq![branch.folder()],
        custom_place(branch) == library_place(branch).push("custom"@),
        library_place(branch) == library_place(other) <==> branch == other,
        custom_place(branch) == custom_place(other) <==> branch == other,
{
    assert(custom_place(branch) =~= library_place(branch).push("custom"@));
    crate::branch::branches_have_distinct_folders(branch, other);
    assert(library_place(branch)[0] == branch.folder() && library_place(other)[0]
        == other.folder());
    assert(custom_place(branch)[0] == branch.folder() && custom_place(other)[0] == other.folder());
}

} // verus!
