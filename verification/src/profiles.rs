//! Where profiles and their providers are kept.

use vstd::prelude::*;
use crate::init::{entry_of, join_path};

verus! {

/// The directory of the profiles, below the shared directory.
pub fn profiles_dir(global_dir: &str) -> (r: String)
    ensures
        r@ == entry_of(global_dir@, "profiles"@),
{
    join_path(global_dir, "profiles")
}

/// The file of the provider registry, in the shared directory.
pub fn provider_registry_path(global_dir: &str) -> (r: String)
    ensures
        r@ == entry_of(global_dir@, "providers.json"@),
{
    join_path(global_dir, "providers.json")
}

} // verus!
