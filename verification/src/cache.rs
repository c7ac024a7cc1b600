//! Listing and purging the cache: what to do and how sizes read.

use vstd::prelude::*;
use vstd::string::StringExecFns;
use crate::text::decimal;
use crate::text::u64_to_string;

verus! {

/// List and remove all the cached contents.
#[derive(Clone, Copy, Debug)]
pub struct Cache {
    /// List the current cached entries.
    pub list: bool,
    /// Purge all the cached contents.
    pub purge: bool,
}

/// What a cache command comes to.
#[derive(Clone, Copy, Debug, PartialEq, Eq, Structural)]
pub enum CacheAction {
    /// Remove everything that is cached.
    Purge,
    /// Show what is cached.
    List,
    /// Nothing was asked for.
    Nothing,
}

/// A size in bytes as it is shown: in whole megabytes above one
/// megabyte, in whole kilobytes above one kilobyte, else in bytes.
pub open spec fn readable(cache_size: u64) -> Seq<char> {
    if cache_size > 1024 * 1024 {
        decimal((cache_size / 1024 / 1024) as nat) + "MB"@
    } else if cache_size > 1024 {
        decimal((cache_size / 1024) as nat) + "KB"@
    } else {
        decimal(cache_size as nat) + "B"@
    }
}

/// A size in bytes as it is shown.
pub fn readable_size(cache_size: u64) -> (text: String)
    ensures
        text@ == readable(cache_size),
{
    if cache_size > 1024 * 1024 {
        let mut text = u64_to_string(cache_size / 1024 / 1024);
        text.append("MB");
        text
    } else if cache_size > 1024 {
        let mut text = u64_to_string(cache_size / 1024);
        text.append("KB");
        text
    } else {
        let mut text = u64_to_string(cache_size);
        text.append("B");
        text
    }
}

impl Cache {
    /// What this command comes to: purging goes before listing.
    pub fn action(&self) -> (action: CacheAction)
        ensures
            action == if self.purge {
                CacheAction::Purge
            } else if self.list {
                CacheAction::List
            } else {
                CacheAction::Nothing
            },
    {
        if self.purge {
            CacheAction::Purge
        } else if self.list {
            CacheAction::List
        } else {
            CacheAction::Nothing
        }
    }
}

} // verus!
