//! Locating data files.

use vstd::prelude::*;

verus! {

/// The directory that holds the data files.
pub const FIXTURES: &'static str = "fixtures/";

/// The path of the data file `name`, relative to the directory of the data
/// files.
pub fn find_fixture(name: &str) -> (path: String)
    ensures
        path@ == FIXTURES@ + name@,
{
    let mut path = FIXTURES.to_owned();
    path.append(name);
    path
}

} // verus!
