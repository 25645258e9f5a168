//! Backups: archive names, the `tar` invocations that make and restore
//! them, and what the automatic backup covers.

use vstd::prelude::*;
use crate::paths::{slash, slash_join};
use crate::entities::{Backup, Server, Timestamp};
use crate::repo::Record;
use crate::stamps::{is_compact_stamp, utc_now_formatted, BACKUP_STAMP_PATTERN};
use crate::text::{concat, concat3};

verus! {

broadcast use vstd::seq_lib::group_seq_properties;

/// The archive name of a backup: `<server>_<stamp>.tar.gz`.
pub open spec fn backup_file_name_spec(server_name: Seq<char>, stamp: Seq<char>) -> Seq<char> {
    server_name + "_"@ + stamp + ".tar.gz"@
}

/// The archive path of a backup taken at `stamp`.
pub fn backup_destination(backups_dir: &str, server_name: &str, stamp: &str) -> (r: String)
    ensures
        r@ == slash_join(backups_dir@, backup_file_name_spec(server_name@, stamp@)),
{
    let a = concat3(server_name, "_", stamp);
    let name = concat(a.as_str(), ".tar.gz");
    slash(backups_dir, name.as_str())
}

/// The archive path for a backup taken now: the stamp is the current UTC
/// time as `%Y%m%d_%H%M%S`.
pub fn new_backup_destination(backups_dir: &str, server_name: &str) -> (r: String)
    ensures
        exists|stamp: Seq<char>|
            is_compact_stamp(stamp) && r@ == slash_join(backups_dir@, backup_file_name_spec(server_name@, stamp)),
{
    let stamp = utc_now_formatted(BACKUP_STAMP_PATTERN);
    backup_destination(backups_dir, server_name, stamp.as_str())
}

/// `tar` arguments that archive `dir_name` of `parent` into `dest`,
/// gzip-compressed: `-czf <dest> -C <parent> <dir_name>`.
pub fn archive_args(dest: &str, parent: &str, dir_name: &str) -> (r: Vec<String>)
    ensures
        r@.len() == 5,
        r@[0]@ == "-czf"@,
        r@[1]@ == dest@,
        r@[2]@ == "-C"@,
        r@[3]@ == parent@,
        r@[4]@ == dir_name@,
{
    let mut r: Vec<String> = Vec::new();
    r.push(String::from_str("-czf"));
    r.push(String::from_str(dest));
    r.push(String::from_str("-C"));
    r.push(String::from_str(parent));
    r.push(String::from_str(dir_name));
    r
}

/// `tar` arguments that unpack `archive` into `restore_dir`:
/// `-xzf <archive> -C <restore_dir>`.
pub fn restore_args(archive: &str, restore_dir: &str) -> (r: Vec<String>)
    ensures
        r@.len() == 4,
        r@[0]@ == "-xzf"@,
        r@[1]@ == archive@,
        r@[2]@ == "-C"@,
        r@[3]@ == restore_dir@,
{
    let mut r: Vec<String> = Vec::new();
    r.push(String::from_str("-xzf"));
    r.push(String::from_str(archive));
    r.push(String::from_str("-C"));
    r.push(String::from_str(restore_dir));
    r
}

/// A server the automatic backup archives.
#[derive(Debug)]
pub struct BackupTarget {
    pub server_id: u128,
    pub server_name: String,
    /// `<servers_dir>/<server_name>`.
    pub server_dir: String,
}

/// Whether the automatic backup runs: an interval of 0 turns it off.
pub open spec fn auto_backup_on(interval_secs: u64) -> bool {
    interval_secs != 0
}

/// What one round of the automatic backup archives: every known server, in
/// order, from its directory under `servers_dir`; nothing when the interval
/// is 0.
pub fn auto_backup_targets(interval_secs: u64, servers: &Vec<Server>, servers_dir: &str) -> (r: Vec<BackupTarget>)
    ensures
        !auto_backup_on(interval_secs) ==> r@.len() == 0,
        auto_backup_on(interval_secs) ==> r@.len() == servers@.len(),
        auto_backup_on(interval_secs) ==> forall|i: int|
            0 <= i < r@.len() ==> {
                &&& (#[trigger] r@[i]).server_id == servers@[i].id
                &&& r@[i].server_name@ == servers@[i].name@
                &&& r@[i].server_dir@ == slash_join(servers_dir@, servers@[i].name@)
            },
{
    let mut r: Vec<BackupTarget> = Vec::new();
    if interval_secs == 0 {
        return r;
    }
    let mut i: usize = 0;
    while i < servers.len()
        invariant
            i <= servers@.len(),
            r@.len() == i,
            forall|k: int|
                0 <= k < i ==> {
                    &&& (#[trigger] r@[k]).server_id == servers@[k].id
                    &&& r@[k].server_name@ == servers@[k].name@
                    &&& r@[k].server_dir@ == slash_join(servers_dir@, servers@[k].name@)
                },
        decreases servers.len() - i,
    {
        let s = &servers[i];
        r.push(
            BackupTarget {
                server_id: s.id,
                server_name: s.name.clone(),
                server_dir: slash(servers_dir, s.name.as_str()),
            },
        );
        i = i + 1;
    }
    r
}

/// `a` is no earlier than `b`.
pub open spec fn not_before(a: Timestamp, b: Timestamp) -> bool {
    a.secs > b.secs || (a.secs == b.secs && a.nanos >= b.nanos)
}

/// The backups taken at instant `t`, in their order in `s`.
pub open spec fn taken_at(s: Seq<Backup>, t: Timestamp) -> Seq<Backup> {
    s.filter(at_instant(t))
}

/// Being taken at instant `t`.
pub open spec fn at_instant(t: Timestamp) -> spec_fn(Backup) -> bool {
    |b: Backup| b.created_at == t
}

/// Newest backup first.
pub open spec fn newest_first(s: Seq<Backup>) -> bool {
    forall|i: int, j: int|
        0 <= i < j < s.len() ==> not_before(#[trigger] s[i].created_at, #[trigger] s[j].created_at)
}

proof fn lemma_none_taken_at(s: Seq<Backup>, t: Timestamp)
    requires
        forall|k: int| 0 <= k < s.len() ==> #[trigger] s[k].created_at != t,
    ensures
        taken_at(s, t) == Seq::<Backup>::empty(),
    decreases s.len(),
{
    reveal(Seq::filter);
    if s.len() > 0 {
        lemma_none_taken_at(s.drop_last(), t);
    }
}

/// Whether `a` is no earlier than `b`.
fn is_not_before(a: Timestamp, b: Timestamp) -> (r: bool)
    ensures
        r == not_before(a, b),
{
    a.secs > b.secs || (a.secs == b.secs && a.nanos >= b.nanos)
}

/// A server's backups as listed to the user: newest first, in stored order
/// among backups of the same instant (a stable sort).
pub fn sort_newest_first(v: &Vec<Backup>) -> (r: Vec<Backup>)
    ensures
        newest_first(r@),
        r@.len() == v@.len(),
        forall|t: Timestamp| #[trigger] taken_at(r@, t) == taken_at(v@, t),
{
    let mut out: Vec<Backup> = Vec::new();
    let mut i: usize = 0;
    while i < v.len()
        invariant
            i <= v@.len(),
            out@.len() == i,
            newest_first(out@),
            forall|t: Timestamp| #[trigger] taken_at(out@, t) == taken_at(v@.take(i as int), t),
        decreases v.len() - i,
    {
        let x = v[i].duplicate();
        let key = x.created_at;
        let mut p: usize = 0;
        while p < out.len() && is_not_before(out[p].created_at, key)
            invariant
                p <= out@.len(),
                forall|k: int| 0 <= k < p ==> not_before(#[trigger] out@[k].created_at, key),
            decreases out.len() - p,
        {
            p = p + 1;
        }
        let ghost old_out = out@;
        out.insert(p, x);
        proof {
            let a = old_out.take(p as int);
            let b = old_out.skip(p as int);
            assert(old_out == a + b);
            assert(out@ == a.push(x) + b);
            assert(a.push(x) == a + seq![x]);
            assert forall|k: int| 0 <= k < b.len() implies !not_before(#[trigger] b[k].created_at, key) by {
                assert(b[k] == old_out[p + k]);
                if p < old_out.len() {
                    assert(!not_before(old_out[p as int].created_at, key));
                    if k > 0 {
                        assert(not_before(old_out[p as int].created_at, old_out[p + k].created_at));
                    }
                }
            }
            assert forall|t: Timestamp| #[trigger] taken_at(out@, t) == taken_at(v@.take(i + 1), t) by {
                let pred = at_instant(t);
                Seq::filter_distributes_over_add(a.push(x), b, pred);
                Seq::filter_distributes_over_add(a, b, pred);
                a.lemma_filter_push(x, pred);
                assert(v@.take(i + 1) == v@.take(i as int).push(x));
                v@.take(i as int).lemma_filter_push(x, pred);
                assert(taken_at(old_out, t) == taken_at(v@.take(i as int), t));
                assert(taken_at(old_out, t) == a.filter(pred) + b.filter(pred));
                assert(taken_at(out@, t) == a.push(x).filter(pred) + b.filter(pred));
                if t == key {
                    assert(pred(x));
                    assert forall|k: int| 0 <= k < b.len() implies #[trigger] b[k].created_at != t by {
                        assert(!not_before(b[k].created_at, key));
                    }
                    lemma_none_taken_at(b, t);
                    assert(b.filter(pred) == Seq::<Backup>::empty());
                    assert(a.filter(pred) + b.filter(pred) == a.filter(pred));
                    assert(a.filter(pred).push(x) + b.filter(pred) == a.filter(pred).push(x));
                    assert(taken_at(v@.take(i + 1), t) == taken_at(v@.take(i as int), t).push(x));
                } else {
                    assert(!pred(x));
                    assert(taken_at(v@.take(i + 1), t) == taken_at(v@.take(i as int), t));
                    assert(taken_at(out@, t) == taken_at(old_out, t));
                }
            }
            assert forall|s: int, t: int|
                0 <= s < t < out@.len() implies not_before(#[trigger] out@[s].created_at, #[trigger] out@[t].created_at) by {
                if t < p {
                    assert(out@[s] == old_out[s] && out@[t] == old_out[t]);
                } else if t == p {
                    assert(out@[s] == old_out[s]);
                } else if s < p {
                    assert(out@[s] == old_out[s] && out@[t] == old_out[t - 1]);
                    assert(b[t - 1 - p] == old_out[t - 1]);
                } else if s == p {
                    assert(out@[t] == old_out[t - 1]);
                    assert(b[t - 1 - p] == old_out[t - 1]);
                } else {
                    assert(out@[s] == old_out[s - 1] && out@[t] == old_out[t - 1]);
                }
            }
        }
        i = i + 1;
    }
    assert(v@.take(v@.len() as int) == v@);
    out
}

} // verus!
