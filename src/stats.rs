//! Aggregate counters over the store and the registry.
use crate::registry::NodeRegistry;
use crate::store::{downloads_total, size_total, FileStore};
use crate::types::NetworkStats;
use vstd::prelude::*;

verus! {

/// `n`, or `u64::MAX` if it is larger.
pub open spec fn capped(n: int) -> u64 {
    if n > u64::MAX {
        u64::MAX
    } else {
        n as u64
    }
}

/// File count, stored bytes and downloads over all files, and the number of
/// registered nodes, each computed afresh. The sums stop at `u64::MAX`.
pub fn get_network_stats(store: &FileStore, registry: &NodeRegistry) -> (r: NetworkStats)
    requires
        store.wf(),
    ensures
        r.total_files == store@.files.len(),
        r.total_storage == capped(size_total(store@.files)),
        r.total_downloads == capped(downloads_total(store@.files)),
        r.active_nodes == registry@.len(),
{
    NetworkStats {
        total_files: store.file_count() as u64,
        total_storage: store.storage_total(),
        total_downloads: store.download_total(),
        active_nodes: registry.len() as u64,
    }
}

} // verus!
