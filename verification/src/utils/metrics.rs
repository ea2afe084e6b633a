//! Counters of filesystem activity.
//!
//! Each counter wraps around on overflow. Rates and the printed report are
//! computed by the program that shows them.

use std::time::{Duration, Instant};
use vstd::prelude::*;

use crate::utils::clock::{instant_elapsed, instant_now};

verus! {

/// `a + b` modulo 2^64.
pub open spec fn wrapped(a: u64, b: u64) -> u64 {
    ((a as int + b as int) % 0x1_0000_0000_0000_0000) as u64
}

/// Adds with wrap-around on overflow.
pub fn wrap_add(a: u64, b: u64) -> (r: u64)
    ensures
        r == wrapped(a, b),
{
    if a <= u64::MAX - b {
        a + b
    } else {
        b - (u64::MAX - a) - 1
    }
}

/// Metrics collector
pub struct Metrics {
    // Read operations
    pub read_ops: u64,
    pub read_bytes: u64,
    pub read_cache_hits: u64,
    pub read_cache_misses: u64,

    // Write operations
    pub write_ops: u64,
    pub write_bytes: u64,
    pub write_buffer_flushes: u64,

    // Metadata operations
    pub lookup_ops: u64,
    pub getattr_ops: u64,
    pub readdir_ops: u64,
    pub metadata_cache_hits: u64,
    pub metadata_cache_misses: u64,

    // Storage operations
    pub obs_get_ops: u64,
    pub obs_put_ops: u64,
    pub obs_list_ops: u64,
    pub obs_delete_ops: u64,
    pub obs_errors: u64,

    // Timing
    pub start_time: Instant,
}

impl Metrics {
    /// All counters are zero.
    pub open spec fn all_zero(&self) -> bool {
        &&& self.read_ops == 0
        &&& self.read_bytes == 0
        &&& self.read_cache_hits == 0
        &&& self.read_cache_misses == 0
        &&& self.write_ops == 0
        &&& self.write_bytes == 0
        &&& self.write_buffer_flushes == 0
        &&& self.lookup_ops == 0
        &&& self.getattr_ops == 0
        &&& self.readdir_ops == 0
        &&& self.metadata_cache_hits == 0
        &&& self.metadata_cache_misses == 0
        &&& self.obs_get_ops == 0
        &&& self.obs_put_ops == 0
        &&& self.obs_list_ops == 0
        &&& self.obs_delete_ops == 0
        &&& self.obs_errors == 0
    }

    /// Every counter but `changed` is the same in `self` and `other`.
    pub open spec fn same_except(&self, other: &Metrics, changed: int) -> bool {
        &&& (changed != 0 ==> self.read_ops == other.read_ops)
        &&& (changed != 1 ==> self.read_bytes == other.read_bytes)
        &&& (changed != 2 ==> self.read_cache_hits == other.read_cache_hits)
        &&& (changed != 3 ==> self.read_cache_misses == other.read_cache_misses)
        &&& (changed != 4 ==> self.write_ops == other.write_ops)
        &&& (changed != 5 ==> self.write_bytes == other.write_bytes)
        &&& (changed != 6 ==> self.write_buffer_flushes == other.write_buffer_flushes)
        &&& (changed != 7 ==> self.lookup_ops == other.lookup_ops)
        &&& (changed != 8 ==> self.getattr_ops == other.getattr_ops)
        &&& (changed != 9 ==> self.readdir_ops == other.readdir_ops)
        &&& (changed != 10 ==> self.metadata_cache_hits == other.metadata_cache_hits)
        &&& (changed != 11 ==> self.metadata_cache_misses == other.metadata_cache_misses)
        &&& (changed != 12 ==> self.obs_get_ops == other.obs_get_ops)
        &&& (changed != 13 ==> self.obs_put_ops == other.obs_put_ops)
        &&& (changed != 14 ==> self.obs_list_ops == other.obs_list_ops)
        &&& (changed != 15 ==> self.obs_delete_ops == other.obs_delete_ops)
        &&& (changed != 16 ==> self.obs_errors == other.obs_errors)
    }

    /// Every counter but the two numbered `a` and `b` is the same in `self`
    /// and `other`.
    pub open spec fn same_except_pair(&self, other: &Metrics, a: int, b: int) -> bool {
        &&& (a != 0 && b != 0 ==> self.read_ops == other.read_ops)
        &&& (a != 1 && b != 1 ==> self.read_bytes == other.read_bytes)
        &&& (a != 2 && b != 2 ==> self.read_cache_hits == other.read_cache_hits)
        &&& (a != 3 && b != 3 ==> self.read_cache_misses == other.read_cache_misses)
        &&& (a != 4 && b != 4 ==> self.write_ops == other.write_ops)
        &&& (a != 5 && b != 5 ==> self.write_bytes == other.write_bytes)
        &&& (a != 6 && b != 6 ==> self.write_buffer_flushes == other.write_buffer_flushes)
        &&& (a != 7 && b != 7 ==> self.lookup_ops == other.lookup_ops)
        &&& (a != 8 && b != 8 ==> self.getattr_ops == other.getattr_ops)
        &&& (a != 9 && b != 9 ==> self.readdir_ops == other.readdir_ops)
        &&& (a != 10 && b != 10 ==> self.metadata_cache_hits == other.metadata_cache_hits)
        &&& (a != 11 && b != 11 ==> self.metadata_cache_misses == other.metadata_cache_misses)
        &&& (a != 12 && b != 12 ==> self.obs_get_ops == other.obs_get_ops)
        &&& (a != 13 && b != 13 ==> self.obs_put_ops == other.obs_put_ops)
        &&& (a != 14 && b != 14 ==> self.obs_list_ops == other.obs_list_ops)
        &&& (a != 15 && b != 15 ==> self.obs_delete_ops == other.obs_delete_ops)
        &&& (a != 16 && b != 16 ==> self.obs_errors == other.obs_errors)
    }

    /// A collector with every counter at zero, started now.
    pub fn new() -> (r: Self)
        ensures
            r.all_zero(),
    {
        Metrics {
            read_ops: 0,
            read_bytes: 0,
            read_cache_hits: 0,
            read_cache_misses: 0,
            write_ops: 0,
            write_bytes: 0,
            write_buffer_flushes: 0,
            lookup_ops: 0,
            getattr_ops: 0,
            readdir_ops: 0,
            metadata_cache_hits: 0,
            metadata_cache_misses: 0,
            obs_get_ops: 0,
            obs_put_ops: 0,
            obs_list_ops: 0,
            obs_delete_ops: 0,
            obs_errors: 0,
            start_time: instant_now(),
        }
    }

    /// Time since the collector was created.
    pub fn uptime(&self) -> Duration {
        instant_elapsed(&self.start_time)
    }

    /// Increment read operations
    pub fn inc_read_ops(&mut self)
        ensures
            final(self).read_ops == wrapped(old(self).read_ops, 1),
            final(self).same_except(old(self), 0),
    {
        self.read_ops = wrap_add(self.read_ops, 1);
    }

    /// Add read bytes
    pub fn add_read_bytes(&mut self, bytes: u64)
        ensures
            final(self).read_bytes == wrapped(old(self).read_bytes, bytes),
            final(self).same_except(old(self), 1),
    {
        self.read_bytes = wrap_add(self.read_bytes, bytes);
    }

    /// Increment read cache hit
    pub fn inc_read_cache_hit(&mut self)
        ensures
            final(self).read_cache_hits == wrapped(old(self).read_cache_hits, 1),
            final(self).same_except(old(self), 2),
    {
        self.read_cache_hits = wrap_add(self.read_cache_hits, 1);
    }

    /// Increment read cache miss
    pub fn inc_read_cache_miss(&mut self)
        ensures
            final(self).read_cache_misses == wrapped(old(self).read_cache_misses, 1),
            final(self).same_except(old(self), 3),
    {
        self.read_cache_misses = wrap_add(self.read_cache_misses, 1);
    }

    /// Increment write operations
    pub fn inc_write_ops(&mut self)
        ensures
            final(self).write_ops == wrapped(old(self).write_ops, 1),
            final(self).same_except(old(self), 4),
    {
        self.write_ops = wrap_add(self.write_ops, 1);
    }

    /// Add write bytes
    pub fn add_write_bytes(&mut self, bytes: u64)
        ensures
            final(self).write_bytes == wrapped(old(self).write_bytes, bytes),
            final(self).same_except(old(self), 5),
    {
        self.write_bytes = wrap_add(self.write_bytes, bytes);
    }

    /// Increment write buffer flushes
    pub fn inc_write_buffer_flush(&mut self)
        ensures
            final(self).write_buffer_flushes == wrapped(old(self).write_buffer_flushes, 1),
            final(self).same_except(old(self), 6),
    {
        self.write_buffer_flushes = wrap_add(self.write_buffer_flushes, 1);
    }

    /// Increment lookup operations
    pub fn inc_lookup_ops(&mut self)
        ensures
            final(self).lookup_ops == wrapped(old(self).lookup_ops, 1),
            final(self).same_except(old(self), 7),
    {
        self.lookup_ops = wrap_add(self.lookup_ops, 1);
    }

    /// Increment getattr operations
    pub fn inc_getattr_ops(&mut self)
        ensures
            final(self).getattr_ops == wrapped(old(self).getattr_ops, 1),
            final(self).same_except(old(self), 8),
    {
        self.getattr_ops = wrap_add(self.getattr_ops, 1);
    }

    /// Increment readdir operations
    pub fn inc_readdir_ops(&mut self)
        ensures
            final(self).readdir_ops == wrapped(old(self).readdir_ops, 1),
            final(self).same_except(old(self), 9),
    {
        self.readdir_ops = wrap_add(self.readdir_ops, 1);
    }

    /// Increment metadata cache hit
    pub fn inc_metadata_cache_hit(&mut self)
        ensures
            final(self).metadata_cache_hits == wrapped(old(self).metadata_cache_hits, 1),
            final(self).same_except(old(self), 10),
    {
        self.metadata_cache_hits = wrap_add(self.metadata_cache_hits, 1);
    }

    /// Increment metadata cache miss
    pub fn inc_metadata_cache_miss(&mut self)
        ensures
            final(self).metadata_cache_misses == wrapped(old(self).metadata_cache_misses, 1),
            final(self).same_except(old(self), 11),
    {
        self.metadata_cache_misses = wrap_add(self.metadata_cache_misses, 1);
    }

    /// Increment OBS GET operations
    pub fn inc_obs_get(&mut self)
        ensures
            final(self).obs_get_ops == wrapped(old(self).obs_get_ops, 1),
            final(self).same_except(old(self), 12),
    {
        self.obs_get_ops = wrap_add(self.obs_get_ops, 1);
    }

    /// Increment OBS PUT operations
    pub fn inc_obs_put(&mut self)
        ensures
            final(self).obs_put_ops == wrapped(old(self).obs_put_ops, 1),
            final(self).same_except(old(self), 13),
    {
        self.obs_put_ops = wrap_add(self.obs_put_ops, 1);
    }

    /// Increment OBS LIST operations
    pub fn inc_obs_list(&mut self)
        ensures
            final(self).obs_list_ops == wrapped(old(self).obs_list_ops, 1),
            final(self).same_except(old(self), 14),
    {
        self.obs_list_ops = wrap_add(self.obs_list_ops, 1);
    }

    /// Increment OBS DELETE operations
    pub fn inc_obs_delete(&mut self)
        ensures
            final(self).obs_delete_ops == wrapped(old(self).obs_delete_ops, 1),
            final(self).same_except(old(self), 15),
    {
        self.obs_delete_ops = wrap_add(self.obs_delete_ops, 1);
    }

    /// Increment OBS errors
    pub fn inc_obs_error(&mut self)
        ensures
            final(self).obs_errors == wrapped(old(self).obs_errors, 1),
            final(self).same_except(old(self), 16),
    {
        self.obs_errors = wrap_add(self.obs_errors, 1);
    }
}

impl Default for Metrics {
    fn default() -> (r: Self)
        ensures
            r.all_zero(),
    {
        Metrics::new()
    }
}

} // verus!
