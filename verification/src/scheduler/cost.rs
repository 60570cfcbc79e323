//! How many workers a database may use.

use vstd::prelude::*;

verus! {

/// The number of active workers from which on the cluster has no spare
/// capacity: four fifths of its workers, rounded up.
pub open spec fn burst_threshold(max_cluster: u32) -> nat {
    ((4 * max_cluster + 4) / 5) as nat
}

/// A number of workers that is at least one.
pub open spec fn at_least_one(n: i32) -> nat {
    if n < 1 {
        1
    } else {
        n as nat
    }
}

/// The greater of two numbers.
pub open spec fn greater(a: nat, b: nat) -> nat {
    if a < b {
        b
    } else {
        a
    }
}

/// The number of workers that a database may use.
///
/// Without a quota it is the limit on concurrent refreshes.  With one it is
/// the quota, and half as much again, but one more at least, while the cluster
/// has spare capacity.
pub open spec fn quota(
    per_db_quota: i32,
    max_concurrent_refreshes: i32,
    max_cluster: u32,
    current_active: u32,
) -> nat {
    if per_db_quota <= 0 {
        at_least_one(max_concurrent_refreshes)
    } else if current_active < burst_threshold(max_cluster) {
        greater(per_db_quota as nat * 3 / 2, per_db_quota as nat + 1)
    } else {
        per_db_quota as nat
    }
}

/// Whether the cluster has spare capacity.
pub fn has_spare_capacity(max_cluster: u32, current_active: u32) -> (r: bool)
    ensures
        r == (current_active < burst_threshold(max_cluster)),
{
    (current_active as u64) < (4 * (max_cluster as u64) + 4) / 5
}

/// The number of workers that a database may use.
///
/// A quota whose threefold does not fit in 32 bits is not provided for while
/// the cluster has spare capacity.
pub fn compute_per_db_quota(
    per_db_quota: i32,
    max_concurrent_refreshes: i32,
    max_cluster: u32,
    current_active: u32,
) -> (r: u32)
    requires
        per_db_quota > 0 && current_active < burst_threshold(max_cluster) ==> per_db_quota * 3
            <= u32::MAX,
    ensures
        r == quota(per_db_quota, max_concurrent_refreshes, max_cluster, current_active),
{
    if per_db_quota <= 0 {
        return if max_concurrent_refreshes < 1 {
            1
        } else {
            max_concurrent_refreshes as u32
        };
    }
    let base: u32 = per_db_quota as u32;
    if has_spare_capacity(max_cluster, current_active) {
        let burst: u32 = base * 3 / 2;
        if burst < base + 1 {
            base + 1
        } else {
            burst
        }
    } else {
        base
    }
}

/// A database may always use a worker.
pub proof fn quota_is_positive(
    per_db_quota: i32,
    max_concurrent_refreshes: i32,
    max_cluster: u32,
    current_active: u32,
)
    ensures
        quota(per_db_quota, max_concurrent_refreshes, max_cluster, current_active) >= 1,
{
}

/// More active workers never raise the quota of a database.
pub proof fn quota_falls_with_load(
    per_db_quota: i32,
    max_concurrent_refreshes: i32,
    max_cluster: u32,
    active: u32,
    more_active: u32,
)
    requires
        active <= more_active,
    ensures
        quota(per_db_quota, max_concurrent_refreshes, max_cluster, more_active) <= quota(
            per_db_quota,
            max_concurrent_refreshes,
            max_cluster,
            active,
        ),
{
}

/// While the cluster has spare capacity a quota is exceeded by half, and never
/// by more than that and one.
pub proof fn burst_is_bounded(
    per_db_quota: i32,
    max_concurrent_refreshes: i32,
    max_cluster: u32,
    current_active: u32,
)
    requires
        per_db_quota > 0,
    ensures
        per_db_quota <= quota(per_db_quota, max_concurrent_refreshes, max_cluster, current_active),
        2 * quota(per_db_quota, max_concurrent_refreshes, max_cluster, current_active) <= 3
            * per_db_quota + 1,
{
}

} // verus!
