//! Fixed-counter metrics registry: lock-free style counters for cache and
//! query bookkeeping, with point-in-time snapshots.
//!
//! The registry is an explicit state object: the embedding application owns
//! one (or shares one behind its own synchronisation) rather than reaching
//! for an ambient global.  Every mutation says exactly which counters move.

use vstd::prelude::*;

verus! {

/// Immutable copy of the registry at one instant.
#[derive(Debug, Clone, Copy, Default, PartialEq, Eq, Structural)]
pub struct MetricsSnapshot {
    pub poison_recoveries_total: u64,
    pub poison_path_inodes: u64,
    pub poison_inodes: u64,
    pub poison_inode_paths: u64,
    pub poison_directories: u64,
    pub poison_file_cache: u64,
    pub sub_cache_hits: u64,
    pub sub_cache_misses: u64,
    pub sub_cache_evictions: u64,
    pub index_cache_hits: u64,
    pub index_cache_misses: u64,
    pub index_cache_evictions: u64,
    pub retrieval_query_calls: u64,
    pub retrieval_query_ns_total: u64,
    pub retrieval_query_ns_max: u64,
    pub rerank_calls: u64,
    pub rerank_ns_total: u64,
    pub rerank_ns_max: u64,
    pub hier_query_calls: u64,
    pub hier_query_ns_total: u64,
    pub hier_query_ns_max: u64,
}

/// The all-zero snapshot of a fresh registry.
pub open spec fn zero_metrics_snapshot() -> MetricsSnapshot {
    MetricsSnapshot {
        poison_recoveries_total: 0u64,
        poison_path_inodes: 0u64,
        poison_inodes: 0u64,
        poison_inode_paths: 0u64,
        poison_directories: 0u64,
        poison_file_cache: 0u64,
        sub_cache_hits: 0u64,
        sub_cache_misses: 0u64,
        sub_cache_evictions: 0u64,
        index_cache_hits: 0u64,
        index_cache_misses: 0u64,
        index_cache_evictions: 0u64,
        retrieval_query_calls: 0u64,
        retrieval_query_ns_total: 0u64,
        retrieval_query_ns_max: 0u64,
        rerank_calls: 0u64,
        rerank_ns_total: 0u64,
        rerank_ns_max: 0u64,
        hier_query_calls: 0u64,
        hier_query_ns_total: 0u64,
        hier_query_ns_max: 0u64,
    }
}

/// The metrics registry itself.  All counters saturate at the 64-bit limit
/// rather than wrap or panic.
pub struct Metrics {
    snap: MetricsSnapshot,
}

/// Record one duration against a call counter, a running total and a
/// maximum.
fn record_duration(calls: &mut u64, total_ns: &mut u64, max_ns: &mut u64, ns: u64)
    ensures
        *final(calls) == old(calls).saturating_add(1),
        *final(total_ns) == old(total_ns).saturating_add(ns),
        *final(max_ns) == if ns > *old(max_ns) {
            ns
        } else {
            *old(max_ns)
        },
{
    *calls = calls.saturating_add(1);
    *total_ns = total_ns.saturating_add(ns);
    if ns > *max_ns {
        *max_ns = ns;
    }
}

impl Metrics {
    /// Fresh registry with every counter at zero.
    pub fn new() -> (r: Self)
        ensures
            r.snap() == zero_metrics_snapshot(),
    {
        Metrics {
            snap: MetricsSnapshot {
                poison_recoveries_total: 0,
                poison_path_inodes: 0,
                poison_inodes: 0,
                poison_inode_paths: 0,
                poison_directories: 0,
                poison_file_cache: 0,
                sub_cache_hits: 0,
                sub_cache_misses: 0,
                sub_cache_evictions: 0,
                index_cache_hits: 0,
                index_cache_misses: 0,
                index_cache_evictions: 0,
                retrieval_query_calls: 0,
                retrieval_query_ns_total: 0,
                retrieval_query_ns_max: 0,
                rerank_calls: 0,
                rerank_ns_total: 0,
                rerank_ns_max: 0,
                hier_query_calls: 0,
                hier_query_ns_total: 0,
                hier_query_ns_max: 0,
            },
        }
    }

    /// The registry's current values, as a spec-level snapshot.
    pub closed spec fn snap(self) -> MetricsSnapshot {
        self.snap
    }

    /// Copy the current values; the registry itself does not change.
    pub fn snapshot(&self) -> (r: MetricsSnapshot)
        ensures
            r == self.snap(),
    {
        self.snap
    }

    /// A poison recovery on the path-to-inode table.
    pub fn inc_poison_path_inodes(&mut self)
        ensures
            final(self).snap() == (MetricsSnapshot {
                poison_recoveries_total: old(self).snap().poison_recoveries_total.saturating_add(1),
                poison_path_inodes: old(self).snap().poison_path_inodes.saturating_add(1),
                ..old(self).snap()
            }),
    {
        self.snap.poison_recoveries_total = self.snap.poison_recoveries_total.saturating_add(1);
        self.snap.poison_path_inodes = self.snap.poison_path_inodes.saturating_add(1);
    }

    /// A poison recovery on the inode table.
    pub fn inc_poison_inodes(&mut self)
        ensures
            final(self).snap() == (MetricsSnapshot {
                poison_recoveries_total: old(self).snap().poison_recoveries_total.saturating_add(1),
                poison_inodes: old(self).snap().poison_inodes.saturating_add(1),
                ..old(self).snap()
            }),
    {
        self.snap.poison_recoveries_total = self.snap.poison_recoveries_total.saturating_add(1);
        self.snap.poison_inodes = self.snap.poison_inodes.saturating_add(1);
    }

    /// A poison recovery on the inode-to-path table.
    pub fn inc_poison_inode_paths(&mut self)
        ensures
            final(self).snap() == (MetricsSnapshot {
                poison_recoveries_total: old(self).snap().poison_recoveries_total.saturating_add(1),
                poison_inode_paths: old(self).snap().poison_inode_paths.saturating_add(1),
                ..old(self).snap()
            }),
    {
        self.snap.poison_recoveries_total = self.snap.poison_recoveries_total.saturating_add(1);
        self.snap.poison_inode_paths = self.snap.poison_inode_paths.saturating_add(1);
    }

    /// A poison recovery on the directory table.
    pub fn inc_poison_directories(&mut self)
        ensures
            final(self).snap() == (MetricsSnapshot {
                poison_recoveries_total: old(self).snap().poison_recoveries_total.saturating_add(1),
                poison_directories: old(self).snap().poison_directories.saturating_add(1),
                ..old(self).snap()
            }),
    {
        self.snap.poison_recoveries_total = self.snap.poison_recoveries_total.saturating_add(1);
        self.snap.poison_directories = self.snap.poison_directories.saturating_add(1);
    }

    /// A poison recovery on the file cache.
    pub fn inc_poison_file_cache(&mut self)
        ensures
            final(self).snap() == (MetricsSnapshot {
                poison_recoveries_total: old(self).snap().poison_recoveries_total.saturating_add(1),
                poison_file_cache: old(self).snap().poison_file_cache.saturating_add(1),
                ..old(self).snap()
            }),
    {
        self.snap.poison_recoveries_total = self.snap.poison_recoveries_total.saturating_add(1);
        self.snap.poison_file_cache = self.snap.poison_file_cache.saturating_add(1);
    }

    /// A substring-cache hit.
    pub fn inc_sub_cache_hit(&mut self)
        ensures
            final(self).snap() == (MetricsSnapshot {
                sub_cache_hits: old(self).snap().sub_cache_hits.saturating_add(1),
                ..old(self).snap()
            }),
    {
        self.snap.sub_cache_hits = self.snap.sub_cache_hits.saturating_add(1);
    }

    /// A substring-cache miss.
    pub fn inc_sub_cache_miss(&mut self)
        ensures
            final(self).snap() == (MetricsSnapshot {
                sub_cache_misses: old(self).snap().sub_cache_misses.saturating_add(1),
                ..old(self).snap()
            }),
    {
        self.snap.sub_cache_misses = self.snap.sub_cache_misses.saturating_add(1);
    }

    /// A substring-cache eviction.
    pub fn inc_sub_cache_eviction(&mut self)
        ensures
            final(self).snap() == (MetricsSnapshot {
                sub_cache_evictions: old(self).snap().sub_cache_evictions.saturating_add(1),
                ..old(self).snap()
            }),
    {
        self.snap.sub_cache_evictions = self.snap.sub_cache_evictions.saturating_add(1);
    }

    /// An index-cache hit.
    pub fn inc_index_cache_hit(&mut self)
        ensures
            final(self).snap() == (MetricsSnapshot {
                index_cache_hits: old(self).snap().index_cache_hits.saturating_add(1),
                ..old(self).snap()
            }),
    {
        self.snap.index_cache_hits = self.snap.index_cache_hits.saturating_add(1);
    }

    /// An index-cache miss.
    pub fn inc_index_cache_miss(&mut self)
        ensures
            final(self).snap() == (MetricsSnapshot {
                index_cache_misses: old(self).snap().index_cache_misses.saturating_add(1),
                ..old(self).snap()
            }),
    {
        self.snap.index_cache_misses = self.snap.index_cache_misses.saturating_add(1);
    }

    /// An index-cache eviction.
    pub fn inc_index_cache_eviction(&mut self)
        ensures
            final(self).snap() == (MetricsSnapshot {
                index_cache_evictions: old(self).snap().index_cache_evictions.saturating_add(1),
                ..old(self).snap()
            }),
    {
        self.snap.index_cache_evictions = self.snap.index_cache_evictions.saturating_add(1);
    }

    /// Record a retrieval query's duration in nanoseconds.
    pub fn record_retrieval_query(&mut self, dur_ns: u64)
        ensures
            final(self).snap() == (MetricsSnapshot {
                retrieval_query_calls: old(self).snap().retrieval_query_calls.saturating_add(1),
                retrieval_query_ns_total: old(self).snap().retrieval_query_ns_total.saturating_add(
                    dur_ns,
                ),
                retrieval_query_ns_max: if dur_ns > old(self).snap().retrieval_query_ns_max {
                    dur_ns
                } else {
                    old(self).snap().retrieval_query_ns_max
                },
                ..old(self).snap()
            }),
    {
        let snap = &mut self.snap;
        record_duration(
            &mut snap.retrieval_query_calls,
            &mut snap.retrieval_query_ns_total,
            &mut snap.retrieval_query_ns_max,
            dur_ns,
        );
    }

    /// Record a rerank pass's duration in nanoseconds.
    pub fn record_rerank(&mut self, dur_ns: u64)
        ensures
            final(self).snap() == (MetricsSnapshot {
                rerank_calls: old(self).snap().rerank_calls.saturating_add(1),
                rerank_ns_total: old(self).snap().rerank_ns_total.saturating_add(dur_ns),
                rerank_ns_max: if dur_ns > old(self).snap().rerank_ns_max {
                    dur_ns
                } else {
                    old(self).snap().rerank_ns_max
                },
                ..old(self).snap()
            }),
    {
        let snap = &mut self.snap;
        record_duration(
            &mut snap.rerank_calls,
            &mut snap.rerank_ns_total,
            &mut snap.rerank_ns_max,
            dur_ns,
        );
    }

    /// Record a hierarchical query's duration in nanoseconds.
    pub fn record_hier_query(&mut self, dur_ns: u64)
        ensures
            final(self).snap() == (MetricsSnapshot {
                hier_query_calls: old(self).snap().hier_query_calls.saturating_add(1),
                hier_query_ns_total: old(self).snap().hier_query_ns_total.saturating_add(dur_ns),
                hier_query_ns_max: if dur_ns > old(self).snap().hier_query_ns_max {
                    dur_ns
                } else {
                    old(self).snap().hier_query_ns_max
                },
                ..old(self).snap()
            }),
    {
        let snap = &mut self.snap;
        record_duration(
            &mut snap.hier_query_calls,
            &mut snap.hier_query_ns_total,
            &mut snap.hier_query_ns_max,
            dur_ns,
        );
    }
}

} // verus!
