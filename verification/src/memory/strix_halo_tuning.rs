//! Tuning for APUs with a 256-bit memory bus.

use vstd::prelude::*;

use crate::text::{chars_of, matches_at, occurs_at};

verus! {

/// Smallest buffer for which huge pages are advised.
pub const HUGE_PAGE_BYTES: usize = 2097152;

/// Hardware threads from which on a wide bus is taken for granted.
pub const WIDE_BUS_THREADS: usize = 32;

/// Memory tuning parameters.
#[derive(Debug, Clone, Copy, PartialEq, Eq, Structural)]
pub struct StrixHaloConfig {
    /// Advise huge pages of 2 MB.
    pub enable_2mb_hugepages: bool,
    /// Interleaved cache line stride in bytes.
    pub cacheline_stride_bytes: usize,
    /// Prefetch distance for sequential reads.
    pub prefetch_distance_cachelines: usize,
}

impl Default for StrixHaloConfig {
    fn default() -> (r: StrixHaloConfig)
        ensures
            r.enable_2mb_hugepages,
            r.cacheline_stride_bytes == 128,
            r.prefetch_distance_cachelines == 4,
    {
        StrixHaloConfig {
            enable_2mb_hugepages: true,
            cacheline_stride_bytes: 128,
            prefetch_distance_cachelines: 4,
        }
    }
}

/// Memory bus optimizer.
#[derive(Debug, Clone, Copy, PartialEq, Eq, Structural)]
pub struct StrixHaloMemoryOptimizer {
    pub config: StrixHaloConfig,
    pub wide_bus: bool,
}

/// How often `needle` stands in `hay` from `i` on, counted without overlap.
pub open spec fn count_from(hay: Seq<char>, needle: Seq<char>, i: int) -> nat
    decreases hay.len() - i,
{
    if i < 0 || i >= hay.len() {
        0
    } else if needle.len() > 0 && occurs_at(hay, needle, i) {
        1 + count_from(hay, needle, i + needle.len())
    } else {
        count_from(hay, needle, i + 1)
    }
}

/// The text of `/proc/cpuinfo` lists enough processors for a wide bus.
pub open spec fn lists_wide_bus(cpuinfo: Option<&str>) -> bool {
    match cpuinfo {
        Some(text) => count_from(text@, "processor"@, 0) >= WIDE_BUS_THREADS,
        None => false,
    }
}

/// How often `needle` stands in `hay`, counted without overlap.
fn count_matches(hay: &[char], needle: &[char]) -> (r: usize)
    requires
        needle@.len() > 0,
    ensures
        r == count_from(hay@, needle@, 0),
{
    let mut i: usize = 0;
    let mut n: usize = 0;
    while i < hay.len()
        invariant
            needle@.len() > 0,
            i <= hay@.len(),
            n <= i,
            n + count_from(hay@, needle@, i as int) == count_from(hay@, needle@, 0),
        decreases hay@.len() - i,
    {
        if matches_at(hay, needle, i) {
            assert(hay@.len() == hay.len());
            n = n + 1;
            i = i + needle.len();
        } else {
            i = i + 1;
        }
    }
    n
}

impl StrixHaloMemoryOptimizer {
    /// An optimizer for the system that the text of `/proc/cpuinfo` describes.
    pub fn new(config: StrixHaloConfig, cpuinfo: Option<&str>) -> (r: StrixHaloMemoryOptimizer)
        ensures
            r.config == config,
            r.wide_bus == lists_wide_bus(cpuinfo),
    {
        StrixHaloMemoryOptimizer { config, wide_bus: Self::detect_256bit_uma(cpuinfo) }
    }

    /// Whether the text of `/proc/cpuinfo` lists at least 32 processors.
    pub fn detect_256bit_uma(cpuinfo: Option<&str>) -> (r: bool)
        ensures
            r == lists_wide_bus(cpuinfo),
    {
        match cpuinfo {
            Some(text) => {
                let hay = chars_of(text);
                let needle = chars_of("processor");
                proof {
                    reveal_strlit("processor");
                }
                count_matches(&hay, &needle) >= WIDE_BUS_THREADS
            },
            None => false,
        }
    }

    /// Whether a 256-bit bus was found.
    pub fn is_256bit_bus(&self) -> (r: bool)
        ensures
            r == self.wide_bus,
    {
        self.wide_bus
    }

    /// Whether the kernel is to be advised to back a buffer with huge pages. There has to be a
    /// buffer, of at least one huge page.
    pub fn advise_hugepages(&self, is_null: bool, len: usize) -> (r: bool)
        ensures
            r == (self.config.enable_2mb_hugepages && !is_null && len >= HUGE_PAGE_BYTES),
    {
        self.config.enable_2mb_hugepages && !is_null && len >= HUGE_PAGE_BYTES
    }

    /// Cache line stride for matrix-vector products: 256 bytes on a wide bus.
    pub fn optimal_stride(&self) -> (r: usize)
        ensures
            r == if self.wide_bus {
                256
            } else {
                self.config.cacheline_stride_bytes
            },
    {
        if self.wide_bus {
            256
        } else {
            self.config.cacheline_stride_bytes
        }
    }
}

} // verus!
