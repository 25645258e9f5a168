//! Machine resource figures: disk and network totals summed over devices,
//! and how long a process has run.

use vstd::prelude::*;

verus! {

/// The space of one disk, in bytes.
#[derive(Debug)]
pub struct DiskSpace {
    pub total: u64,
    pub available: u64,
}

/// Total space of the disks.
pub open spec fn total_space(disks: Seq<DiskSpace>) -> int
    decreases disks.len(),
{
    if disks.len() == 0 {
        0
    } else {
        total_space(disks.drop_last()) + disks.last().total
    }
}

/// Used space of the disks: total minus available, per disk.
pub open spec fn used_space(disks: Seq<DiskSpace>) -> int
    decreases disks.len(),
{
    if disks.len() == 0 {
        0
    } else {
        used_space(disks.drop_last()) + (disks.last().total - disks.last().available)
    }
}

proof fn lemma_space_monotone(disks: Seq<DiskSpace>, i: int)
    requires
        0 <= i <= disks.len(),
        forall|k: int| 0 <= k < disks.len() ==> #[trigger] disks[k].available <= disks[k].total,
    ensures
        total_space(disks.take(i)) <= total_space(disks),
        0 <= used_space(disks.take(i)) <= used_space(disks),
    decreases disks.len() - i,
{
    if i < disks.len() {
        lemma_space_monotone(disks, i + 1);
        assert(disks.take(i + 1).drop_last() == disks.take(i));
    } else {
        assert(disks.take(i) == disks);
    }
    if i > 0 {
        lemma_used_nonneg(disks.take(i));
    }
}

proof fn lemma_used_nonneg(disks: Seq<DiskSpace>)
    requires
        forall|k: int| 0 <= k < disks.len() ==> #[trigger] disks[k].available <= disks[k].total,
    ensures
        used_space(disks) >= 0,
    decreases disks.len(),
{
    if disks.len() > 0 {
        lemma_used_nonneg(disks.drop_last());
    }
}

/// The total and used space over all disks, as `(total, used)`. A disk
/// never reports more available than total space, and the sums fit in 64
/// bits (the arithmetic would overflow otherwise).
pub fn disk_totals(disks: &Vec<DiskSpace>) -> (r: (u64, u64))
    requires
        forall|k: int| 0 <= k < disks@.len() ==> #[trigger] disks@[k].available <= disks@[k].total,
        total_space(disks@) <= u64::MAX,
        used_space(disks@) <= u64::MAX,
    ensures
        r.0 == total_space(disks@),
        r.1 == used_space(disks@),
{
    let mut total: u64 = 0;
    let mut used: u64 = 0;
    let mut i: usize = 0;
    while i < disks.len()
        invariant
            i <= disks@.len(),
            forall|k: int| 0 <= k < disks@.len() ==> #[trigger] disks@[k].available <= disks@[k].total,
            total_space(disks@) <= u64::MAX,
            used_space(disks@) <= u64::MAX,
            total == total_space(disks@.take(i as int)),
            used == used_space(disks@.take(i as int)),
        decreases disks.len() - i,
    {
        proof {
            assert(disks@.take(i + 1).drop_last() == disks@.take(i as int));
            lemma_space_monotone(disks@, i + 1);
        }
        let d = &disks[i];
        total = total + d.total;
        used = used + (d.total - d.available);
        i = i + 1;
    }
    proof {
        assert(disks@.take(disks@.len() as int) == disks@);
    }
    (total, used)
}

/// Bytes received and sent through one network interface.
#[derive(Debug)]
pub struct Traffic {
    pub received: u64,
    pub transmitted: u64,
}

/// Bytes received over all interfaces.
pub open spec fn total_received(nets: Seq<Traffic>) -> int
    decreases nets.len(),
{
    if nets.len() == 0 {
        0
    } else {
        total_received(nets.drop_last()) + nets.last().received
    }
}

/// Bytes sent over all interfaces.
pub open spec fn total_transmitted(nets: Seq<Traffic>) -> int
    decreases nets.len(),
{
    if nets.len() == 0 {
        0
    } else {
        total_transmitted(nets.drop_last()) + nets.last().transmitted
    }
}

proof fn lemma_traffic_monotone(nets: Seq<Traffic>, i: int)
    requires
        0 <= i <= nets.len(),
    ensures
        total_received(nets.take(i)) <= total_received(nets),
        total_transmitted(nets.take(i)) <= total_transmitted(nets),
    decreases nets.len() - i,
{
    if i < nets.len() {
        lemma_traffic_monotone(nets, i + 1);
        assert(nets.take(i + 1).drop_last() == nets.take(i));
    } else {
        assert(nets.take(i) == nets);
    }
}

/// The bytes received and sent over all interfaces, as `(received, sent)`;
/// the sums fit in 64 bits.
pub fn network_totals(nets: &Vec<Traffic>) -> (r: (u64, u64))
    requires
        total_received(nets@) <= u64::MAX,
        total_transmitted(nets@) <= u64::MAX,
    ensures
        r.0 == total_received(nets@),
        r.1 == total_transmitted(nets@),
{
    let mut rx: u64 = 0;
    let mut tx: u64 = 0;
    let mut i: usize = 0;
    while i < nets.len()
        invariant
            i <= nets@.len(),
            total_received(nets@) <= u64::MAX,
            total_transmitted(nets@) <= u64::MAX,
            rx == total_received(nets@.take(i as int)),
            tx == total_transmitted(nets@.take(i as int)),
        decreases nets.len() - i,
    {
        proof {
            assert(nets@.take(i + 1).drop_last() == nets@.take(i as int));
            lemma_traffic_monotone(nets@, i + 1);
        }
        rx = rx + nets[i].received;
        tx = tx + nets[i].transmitted;
        i = i + 1;
    }
    proof {
        assert(nets@.take(nets@.len() as int) == nets@);
    }
    (rx, tx)
}

/// Seconds a process has run: now minus its start, or 0 when the start
/// lies ahead.
pub fn uptime_secs(now_unix: u64, start_unix: u64) -> (r: u64)
    ensures
        now_unix >= start_unix ==> r == now_unix - start_unix,
        now_unix < start_unix ==> r == 0,
{
    now_unix.saturating_sub(start_unix)
}

} // verus!
