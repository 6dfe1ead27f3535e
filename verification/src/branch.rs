//! The two lines of Rust server builds that plugins are checked against.
use vstd::prelude::*;

use crate::text::texts;

verus! {

/// A line of Rust server builds.
#[derive(Debug, Clone, Copy, PartialEq, Eq, Structural)]
pub enum Branch {
    Release,
    Staging,
}

impl Branch {
    /// The name of the folder that holds the libraries of this branch.
    pub open spec fn folder(self) -> Seq<char> {
        match self {
            Branch::Release => "release"@,
            Branch::Staging => "staging"@,
        }
    }

    /// The symbol that tells plugin code which branch it is compiled for.
    pub open spec fn branch_symbol(self) -> Seq<char> {
        match self {
            Branch::Release => "RUST_PUBLIC"@,
            Branch::Staging => "RUST_STAGING"@,
        }
    }

    /// The preprocessor symbols that plugins of this branch are compiled with, in order.
    pub open spec fn symbols(self) -> Seq<Seq<char>> {
        seq!["OXIDE"@, "OXIDEMOD"@, "RUST"@, self.branch_symbol(), "OXIDE_PUBLICIZED"@]
    }

    /// Selects the branch from the `--staging` switch.
    pub fn from_staging(staging: bool) -> (branch: Branch)
        ensures
            branch == if staging {
                Branch::Staging
            } else {
                Branch::Release
            },
    {
        if staging {
            Branch::Staging
        } else {
            Branch::Release
        }
    }

    /// The name of the folder that holds the libraries of this branch.
    pub fn folder_name(&self) -> (name: &str)
        ensures
            name@ == self.folder(),
            self is Release ==> name@ == "release"@,
            self is Staging ==> name@ == "staging"@,
    {
        match self {
            Branch::Release => "release",
            Branch::Staging => "staging",
        }
    }

    /// The preprocessor symbols that plugins of this branch are compiled with.
    pub fn preprocessor_symbols(&self) -> (symbols: Vec<String>)
        ensures
            symbols@.len() == 5,
            texts(symbols@) == self.symbols(),
            symbols@[0]@ == "OXIDE"@,
            symbols@[1]@ == "OXIDEMOD"@,
            symbols@[2]@ == "RUST"@,
            self is Release ==> symbols@[3]@ == "RUST_PUBLIC"@,
            self is Staging ==> symbols@[3]@ == "RUST_STAGING"@,
            symbols@[4]@ == "OXIDE_PUBLICIZED"@,
    {
        let branch = match self {
            Branch::Release => "RUST_PUBLIC",
            Branch::Staging => "RUST_STAGING",
        };
        let symbols = vec![
            "OXIDE".to_owned(),
            "OXIDEMOD".to_owned(),
            "RUST".to_owned(),
            branch.to_owned(),
            "OXIDE_PUBLICIZED".to_owned(),
        ];
        assert(texts(symbols@) =~= self.symbols());
        symbols
    }
}

/// The branches never share a library folder.
pub proof fn branches_have_distinct_folders(a: Branch, b: Branch)
    ensures
        a.folder() == b.folder() <==> a == b,
{
    reveal_strlit("release");
    reveal_strlit("staging");
    assert("release"@[0] != "staging"@[0]);
}

/// The symbols of the two branches agree everywhere except for the one that names the branch.
pub proof fn branches_differ_in_one_symbol(a: Branch, b: Branch)
    ensures
        a.symbols().len() == 5,
        forall|i: int| 0 <= i < 5 && i != 3 ==> a.symbols()[i] == b.symbols()[i],
        a.symbols()[3] == b.symbols()[3] <==> a == b,
{
    reveal_strlit("RUST_PUBLIC");
    reveal_strlit("RUST_STAGING");
    assert("RUST_PUBLIC"@.len() != "RUST_STAGING"@.len());
}

/// What tells the branches apart is the name of the folder, and the symbol that plugin code sees is
/// the one for that folder: the public one for `release`, the staging one for `staging`.
pub proof fn folder_and_symbol_go_together(branch: Branch)
    ensures
        branch.folder() == "staging"@ <==> branch is Staging,
        branch.folder() == "release"@ <==> branch is Release,
        branch.symbols().contains("RUST_STAGING"@) <==> branch.folder() == "staging"@,
        branch.symbols().contains("RUST_PUBLIC"@) <==> branch.folder() == "release"@,
        branch.symbols().contains("OXIDE"@) && branch.symbols().contains("OXIDEMOD"@),
        branch.symbols().contains("RUST"@) && branch.symbols().contains("OXIDE_PUBLICIZED"@),
{
    reveal_strlit("release");
    reveal_strlit("staging");
    reveal_strlit("OXIDE");
    reveal_strlit("OXIDEMOD");
    reveal_strlit("RUST");
    reveal_strlit("RUST_PUBLIC");
    reveal_strlit("RUST_STAGING");
    reveal_strlit("OXIDE_PUBLICIZED");
    assert("release"@[0] != "staging"@[0]);
    let symbols = branch.symbols();
    assert(symbols[0] == "OXIDE"@ && symbols[1] == "OXIDEMOD"@ && symbols[2] == "RUST"@);
    assert(symbols[3] == branch.branch_symbol() && symbols[4] == "OXIDE_PUBLICIZED"@);
    assert("OXIDE"@.len() == 5 && "OXIDEMOD"@.len() == 8 && "RUST"@.len() == 4);
    assert("RUST_PUBLIC"@.len() == 11 && "RUST_STAGING"@.len() == 12);
    assert("OXIDE_PUBLICIZED"@.len() == 16);
}

} // verus!
