//! The compiler that plugins are compiled with.
use vstd::prelude::*;

use crate::path::DataPath;
use crate::setup::release::{Component, ReleaseSetup, ReleaseStep};

verus! {

/// Where the compiler is.
pub open spec fn compiler_place() -> Seq<Seq<char>> {
    seq!["tools"@, "compiler"@]
}

/// Where the compiler is.
pub fn compiler_dir() -> (path: DataPath)
    ensures
        path@ == compiler_place(),
        path.parts@.len() == 2,
        path.parts@[0]@ == "tools"@,
        path.parts@[1]@ == "compiler"@,
{
    let path = DataPath::root().join("tools").join("compiler");
    assert(path@ =~= compiler_place());
    path
}

/// Starts the installation of the compiler.
pub fn ensure_compiler() -> (setup: ReleaseSetup)
    ensures
        setup.component == Component::Compiler,
        setup.step == ReleaseStep::Checking,
{
    ReleaseSetup { component: Component::Compiler, step: ReleaseStep::Checking }
}

} // verus!
