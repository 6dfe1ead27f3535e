//! Which plugins are checked: the path that the user gives.
use vstd::prelude::*;
use vstd::utf8::*;

use crate::path::{has_extension, name_bytes, named_with_extension, FilePath};

verus! {

/// What is at a path.
#[derive(Debug, Clone, Copy, PartialEq, Eq, Structural)]
pub enum PathKind {
    Missing,
    File,
    Folder,
}

/// That the program ends before anything is compiled: what it says, and whether it ends with
/// success.
#[derive(Debug)]
pub struct Ending {
    pub message: String,
    pub success: bool,
}

impl Ending {
    /// The program ends with `success` or without, and says `message`.
    pub open spec fn says(self, message: Seq<char>, success: bool) -> bool {
        self.message@ == message && self.success == success
    }
}

/// What is checked.
#[derive(Debug)]
pub enum Source {
    /// The plugin in the file.
    Plugin,
    /// The plugins in the folder.
    Folder,
    /// Nothing.
    Refused(Ending),
}

/// The program ends at once unless it is run from a terminal.
pub fn check_terminal(is_terminal: bool) -> (ending: Option<Ending>)
    ensures
        match ending {
            Some(e) => !is_terminal && e.says("oxidize must be run from the cli"@, false),
            None => is_terminal,
        },
        ending matches Some(e) ==> e.message@ == "oxidize must be run from the cli"@ && !e.success,
{
    if is_terminal {
        None
    } else {
        Some(Ending { message: "oxidize must be run from the cli".to_owned(), success: false })
    }
}

/// What is checked where the user gives `path`, at which there is `kind`: a plugin or a folder of
/// plugins. Anything else is refused.
pub fn choose_source(kind: PathKind, path: &FilePath) -> (source: Source)
    ensures
        match kind {
            PathKind::Missing => {
                &&& source matches Source::Refused(ending)
                &&& ending.says("path not found: "@ + path.text@, false)
            },
            PathKind::File => if named_with_extension(name_bytes(path.name), "cs"@) {
                source is Plugin
            } else {
                &&& source matches Source::Refused(ending)
                &&& ending.says("not a .cs plugin: "@ + path.text@, false)
            },
            PathKind::Folder => source is Folder,
        },
        source is Folder <==> kind is Folder,
        source is Plugin <==> kind is File && path.name is Some && path.name->0@.len() > 3
            && path.name->0@.skip(path.name->0@.len() - 3) == seq![46u8, 99u8, 115u8],
        source matches Source::Refused(ending) ==> !ending.success && ending.message@ == if kind
            is Missing {
            "path not found: "@ + path.text@
        } else {
            "not a .cs plugin: "@ + path.text@
        },
{
    proof {
        if path.name is Some {
            plugins_end_in_cs(path.name->0@);
        }
    }
    match kind {
        PathKind::Missing => {
            let mut message = "path not found: ".to_owned();
            message.append(path.text.as_str());
            Source::Refused(Ending { message, success: false })
        },
        PathKind::File => if has_extension(&path.name, "cs") {
            Source::Plugin
        } else {
            let mut message = "not a .cs plugin: ".to_owned();
            message.append(path.text.as_str());
            Source::Refused(Ending { message, success: false })
        },
        PathKind::Folder => Source::Folder,
    }
}

/// The program ends, with success, where the user gives `path` and no plugins are found there.
pub fn nothing_found(found: usize, path: &FilePath) -> (ending: Option<Ending>)
    ensures
        match ending {
            Some(e) => found == 0 && e.says("no plugins found in "@ + path.text@, true),
            None => found > 0,
        },
        ending matches Some(e) ==> e.message@ == "no plugins found in "@ + path.text@ && e.success,
{
    if found == 0 {
        let mut message = "no plugins found in ".to_owned();
        message.append(path.text.as_str());
        Some(Ending { message, success: true })
    } else {
        None
    }
}

/// A file is taken for a plugin just where its name is something and `.cs`.
pub proof fn plugins_end_in_cs(name: Seq<u8>)
    ensures
        named_with_extension(Some(name), "cs"@) <==> name.len() > 3 && name.skip(name.len() - 3)
            == seq![46u8, 99u8, 115u8],
        !named_with_extension(None, "cs"@),
{
    lemma_cs_bytes();
    let cs = encode_utf8("cs"@);
    crate::path::names_end_in_their_extension(name, "cs"@);
    assert(!cs.contains(46u8));
    if named_with_extension(Some(name), "cs"@) {
        let stem = choose|stem: Seq<u8>|
            stem.len() > 0 && name == #[trigger] (stem + seq![46u8] + cs);
        assert(name.skip(name.len() - 3) =~= seq![46u8, 99u8, 115u8]);
    }
    if name.len() > 3 && name.skip(name.len() - 3) == seq![46u8, 99u8, 115u8] {
        let stem = name.take(name.len() - 3);
        assert(name =~= stem + name.skip(name.len() - 3));
        assert(name =~= stem + seq![46u8] + cs);
    }
}

/// The bytes of the extension of plugins.
proof fn lemma_cs_bytes()
    ensures
        encode_utf8("cs"@) == seq![99u8, 115u8],
{
    reveal_strlit("cs");
    assert("cs"@ =~= seq!['c', 's']);
    assert("cs"@.drop_first() =~= seq!['s']);
    assert(seq!['s'].drop_first() =~= Seq::<char>::empty());
    reveal_with_fuel(encode_utf8, 3);
    char_u32_cast('c', 99u32);
    char_u32_cast('s', 115u32);
    assert(99u32 & 0x7f == 99u32) by (bit_vector);
    assert(115u32 & 0x7f == 115u32) by (bit_vector);
    assert(encode_utf8("cs"@) =~= seq![99u8, 115u8]);
}

} // verus!
