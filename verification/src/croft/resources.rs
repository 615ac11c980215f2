//! Resource accounting of a croft: hardware capacity, the share of it
//! workloads may use, and what they have reserved.

use vstd::prelude::*;

verus! {

/// Capacity and allocations of a croft, in Hertz and bytes.
#[derive(Clone, Copy, Debug, PartialEq, Eq, Default, Structural)]
pub struct CroftResources {
    /// Total CPU capacity (cores times clock rate).
    pub cpu_total: u64,
    /// CPU capacity workloads may be scheduled on.
    pub cpu_yardable: u64,
    /// CPU capacity reserved by active workloads.
    pub cpu_reserved: u64,
    /// Total memory.
    pub mem_total: u64,
    /// Memory workloads may be scheduled on.
    pub mem_yardable: u64,
    /// Memory reserved by active workloads.
    pub mem_reserved: u64,
}

/// `a - b`, or zero when `b` exceeds `a`.
pub open spec fn minus_or_zero(a: u64, b: u64) -> u64 {
    if a >= b {
        (a - b) as u64
    } else {
        0
    }
}

impl CroftResources {
    /// CPU capacity still free for scheduling: yardable minus reserved,
    /// never below zero.
    pub fn cpu_available(&self) -> (r: u64)
        ensures
            r == minus_or_zero(self.cpu_yardable, self.cpu_reserved),
    {
        if self.cpu_yardable >= self.cpu_reserved {
            self.cpu_yardable - self.cpu_reserved
        } else {
            0
        }
    }

    /// Memory still free for scheduling: yardable minus reserved, never
    /// below zero.
    pub fn mem_available(&self) -> (r: u64)
        ensures
            r == minus_or_zero(self.mem_yardable, self.mem_reserved),
    {
        if self.mem_yardable >= self.mem_reserved {
            self.mem_yardable - self.mem_reserved
        } else {
            0
        }
    }
}

/// The sum of `fs`.
pub open spec fn sum_of(fs: Seq<u64>) -> nat
    decreases fs.len(),
{
    if fs.len() == 0 {
        0
    } else {
        (sum_of(fs.drop_last()) + fs.last()) as nat
    }
}

/// The average clock rate in MHz of the cores whose rates are `fs`: their
/// mean when there is a core and the mean is above zero, 2500 otherwise.
pub open spec fn mean_mhz(fs: Seq<u64>) -> nat {
    if fs.len() > 0 && sum_of(fs) / fs.len() > 0 {
        sum_of(fs) / fs.len()
    } else {
        2500
    }
}

/// The CPU capacity in Hertz of a host whose cores run at `fs` MHz: the
/// number of cores (at least one) times their average rate.
pub open spec fn host_cpu_hz(fs: Seq<u64>) -> nat {
    (if fs.len() > 0 { fs.len() } else { 1 }) * mean_mhz(fs) * 1_000_000
}

/// Total CPU capacity in Hertz of a host whose cores run at the clock rates
/// `freqs_mhz`.
pub fn host_cpu_total(freqs_mhz: &Vec<u64>) -> (r: u64)
    requires
        sum_of(freqs_mhz@) <= u64::MAX,
        host_cpu_hz(freqs_mhz@) <= u64::MAX,
    ensures
        r == host_cpu_hz(freqs_mhz@),
{
    let mut sum: u64 = 0;
    let mut i: usize = 0;
    while i < freqs_mhz.len()
        invariant
            i <= freqs_mhz.len(),
            sum_of(freqs_mhz@) <= u64::MAX,
            sum == sum_of(freqs_mhz@.take(i as int)),
        decreases freqs_mhz.len() - i,
    {
        proof {
            assert(freqs_mhz@.take(i + 1).drop_last() =~= freqs_mhz@.take(i as int));
            lemma_sum_prefix(freqs_mhz@, i + 1);
        }
        sum = sum + freqs_mhz[i];
        i = i + 1;
    }
    proof {
        assert(freqs_mhz@.take(i as int) =~= freqs_mhz@);
    }
    let count = freqs_mhz.len() as u64;
    let avg: u64 = if count > 0 && sum / count > 0 {
        sum / count
    } else {
        2500
    };
    let cores: u64 = if count > 0 { count } else { 1 };
    proof {
        assert(avg as nat == mean_mhz(freqs_mhz@));
        assert(host_cpu_hz(freqs_mhz@) == cores * avg * 1_000_000);
        assert(cores * avg <= cores * avg * 1_000_000) by (nonlinear_arith)
            requires
                cores >= 1,
                avg >= 1,
        ;
    }
    cores * avg * 1_000_000
}

/// Whether the capacity of a host whose cores run at `freqs_mhz` can be
/// computed in 64 bits: the rates' sum and the capacity in Hertz both fit.
pub fn host_cpu_fits(freqs_mhz: &Vec<u64>) -> (b: bool)
    ensures
        b == (sum_of(freqs_mhz@) <= u64::MAX && host_cpu_hz(freqs_mhz@) <= u64::MAX),
{
    let mut sum: u64 = 0;
    let mut i: usize = 0;
    while i < freqs_mhz.len()
        invariant
            i <= freqs_mhz.len(),
            sum == sum_of(freqs_mhz@.take(i as int)),
        decreases freqs_mhz.len() - i,
    {
        proof {
            assert(freqs_mhz@.take(i + 1).drop_last() =~= freqs_mhz@.take(i as int));
        }
        match sum.checked_add(freqs_mhz[i]) {
            Some(x) => {
                sum = x;
            },
            None => {
                proof {
                    lemma_sum_prefix(freqs_mhz@, i + 1);
                }
                return false;
            },
        }
        i = i + 1;
    }
    proof {
        assert(freqs_mhz@.take(i as int) =~= freqs_mhz@);
    }
    let count = freqs_mhz.len() as u64;
    let avg: u64 = if count > 0 && sum / count > 0 {
        sum / count
    } else {
        2500
    };
    let cores: u64 = if count > 0 { count } else { 1 };
    proof {
        assert(avg as nat == mean_mhz(freqs_mhz@));
        assert(host_cpu_hz(freqs_mhz@) == cores * avg * 1_000_000);
    }
    match cores.checked_mul(avg) {
        Some(ca) => {
            proof {
                assert(cores * avg * 1_000_000 == ca * 1_000_000);
            }
            ca.checked_mul(1_000_000).is_some()
        },
        None => {
            proof {
                assert(cores * avg <= cores * avg * 1_000_000) by (nonlinear_arith)
                    requires
                        cores >= 1,
                        avg >= 1,
                ;
            }
            false
        },
    }
}

/// A prefix of a list of rates sums to no more than the whole list.
proof fn lemma_sum_prefix(fs: Seq<u64>, n: int)
    requires
        0 <= n <= fs.len(),
    ensures
        sum_of(fs.take(n)) <= sum_of(fs),
    decreases fs.len() - n,
{
    if n < fs.len() {
        assert(fs.drop_last().take(n) =~= fs.take(n));
        lemma_sum_prefix(fs.drop_last(), n);
    } else {
        assert(fs.take(n) =~= fs);
    }
}

} // verus!
