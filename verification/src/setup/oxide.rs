//! Oxide, and the releases that it is taken from.
use vstd::prelude::*;

use crate::branch::Branch;
use crate::setup::release::{Component, ReleaseSetup, ReleaseStep};

verus! {

/// A release: its tag and the files that belong to it.
#[derive(Debug)]
pub struct Release {
    pub tag_name: String,
    pub assets: Vec<Asset>,
}

/// A file that belongs to a release, and where it can be downloaded.
#[derive(Debug)]
pub struct Asset {
    pub name: String,
    pub browser_download_url: String,
}

/// The asset at index `i` is the first one called `name`.
pub open spec fn first_asset_at(assets: Seq<Asset>, name: Seq<char>, i: int) -> bool {
    &&& 0 <= i < assets.len()
    &&& assets[i].name@ == name
    &&& forall|k: int| 0 <= k < i ==> (#[trigger] assets[k]).name@ != name
}

/// None of the assets is called `name`.
pub open spec fn no_asset(assets: Seq<Asset>, name: Seq<char>) -> bool {
    forall|k: int| 0 <= k < assets.len() ==> (#[trigger] assets[k]).name@ != name
}

impl Release {
    /// The index of the first asset called `name`.
    pub fn find_asset(&self, name: &str) -> (at: Option<usize>)
        ensures
            match at {
                Some(i) => first_asset_at(self.assets@, name@, i as int),
                None => no_asset(self.assets@, name@),
            },
            at matches Some(i) ==> {
                &&& i < self.assets@.len()
                &&& self.assets@[i as int].name@ == name@
                &&& forall|k: int| 0 <= k < i ==> (#[trigger] self.assets@[k]).name@ != name@
            },
            at is None ==> forall|k: int|
                0 <= k < self.assets@.len() ==> (#[trigger] self.assets@[k]).name@ != name@,
    {
        let wanted = name.to_owned();
        let mut i: usize = 0;
        while i < self.assets.len()
            invariant
                i <= self.assets@.len(),
                wanted@ == name@,
                forall|k: int| 0 <= k < i ==> (#[trigger] self.assets@[k]).name@ != name@,
            decreases self.assets@.len() - i,
        {
            if self.assets[i].name == wanted {
                return Some(i);
            }
            i += 1;
        }
        None
    }
}

/// Starts the installation of Oxide for `branch`.
pub fn ensure_oxide(branch: &Branch) -> (setup: ReleaseSetup)
    ensures
        setup.component == Component::Oxide(*branch),
        setup.step == ReleaseStep::Checking,
{
    ReleaseSetup { component: Component::Oxide(*branch), step: ReleaseStep::Checking }
}

} // verus!
