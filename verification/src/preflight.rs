//! The one-time checks made before any pipeline work: the target's schema
//! version marker and the shape of the legacy installation directory.
use vstd::prelude::*;
use vstd::string::StringExecFns;

verus! {

/// The schema-version marker the target database must hold: the identifier
/// of its last expected migration.
pub open spec fn migration_marker() -> Seq<char> {
    "20210912144011_AddSamplesMatchPlaybackRate"@
}

/// The file the legacy installation directory must contain.
pub open spec fn legacy_catalog_name() -> Seq<char> {
    "osu!.db"@
}

/// Whether the stored schema-version marker matches the expected one; a
/// mismatch is fatal before any writes.
pub fn check_version(marker: &String) -> (r: bool)
    ensures
        r == (marker@ == migration_marker()),
{
    let expected = String::from_str("20210912144011_AddSamplesMatchPlaybackRate");
    marker.eq(&expected)
}

/// Whether a directory listing identifies a legacy installation: it must
/// name the legacy catalog file.
pub fn check_stable_path(dir_entries: &Vec<String>) -> (r: bool)
    ensures
        r == exists|i: int|
            0 <= i < dir_entries@.len() && (#[trigger] dir_entries@[i])@ == legacy_catalog_name(),
{
    let expected = String::from_str("osu!.db");
    let mut i: usize = 0;
    while i < dir_entries.len()
        invariant
            i <= dir_entries@.len(),
            expected@ == legacy_catalog_name(),
            forall|t: int| 0 <= t < i ==> (#[trigger] dir_entries@[t])@ != legacy_catalog_name(),
        decreases dir_entries@.len() - i,
    {
        if dir_entries[i].eq(&expected) {
            return true;
        }
        i = i + 1;
    }
    proof {
        if exists|t: int|
            0 <= t < dir_entries@.len() && (#[trigger] dir_entries@[t])@ == legacy_catalog_name() {
            let t = choose|t: int|
                0 <= t < dir_entries@.len() && (#[trigger] dir_entries@[t])@
                    == legacy_catalog_name();
            assert(false);
        }
    }
    false
}

} // verus!
