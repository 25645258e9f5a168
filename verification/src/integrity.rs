//! Consistency between the server records and the server directories on
//! disk: records without a directory, and directories without a record.

use vstd::prelude::*;
use crate::text::str_eq;

verus! {

/// Some text of `names` equals `name`.
pub open spec fn names_contain(names: Seq<String>, name: Seq<char>) -> bool {
    exists|i: int| 0 <= i < names.len() && #[trigger] names[i]@ == name
}

/// No text occurs twice in `names`.
pub open spec fn no_repeats(names: Seq<String>) -> bool {
    forall|i: int, j: int| 0 <= i < j < names.len() ==> #[trigger] names[i]@ != #[trigger] names[j]@
}

/// Whether `names` holds `name`.
pub fn contains_name(names: &Vec<String>, name: &str) -> (r: bool)
    ensures
        r == names_contain(names@, name@),
{
    let mut i: usize = 0;
    while i < names.len()
        invariant
            i <= names@.len(),
            forall|k: int| 0 <= k < i ==> #[trigger] names@[k]@ != name@,
        decreases names.len() - i,
    {
        if str_eq(names[i].as_str(), name) {
            return true;
        }
        i = i + 1;
    }
    false
}

/// The distinct texts of `a` that `b` lacks, in order of first occurrence.
pub fn missing_from(a: &Vec<String>, b: &Vec<String>) -> (r: Vec<String>)
    ensures
        no_repeats(r@),
        forall|x: Seq<char>| #[trigger] names_contain(r@, x) <==> (names_contain(a@, x) && !names_contain(b@, x)),
{
    let mut out: Vec<String> = Vec::new();
    let mut i: usize = 0;
    while i < a.len()
        invariant
            i <= a@.len(),
            no_repeats(out@),
            forall|x: Seq<char>|
                #[trigger] names_contain(out@, x) <==> (names_contain(a@.take(i as int), x) && !names_contain(
                    b@,
                    x,
                )),
        decreases a.len() - i,
    {
        let name = a[i].as_str();
        let ghost before = out@;
        let in_b = contains_name(b, name);
        let seen = contains_name(&out, name);
        if !in_b && !seen {
            out.push(a[i].clone());
        }
        proof {
            let n = a@[i as int]@;
            assert(in_b == names_contain(b@, n));
            assert(seen == names_contain(before, n));
            assert forall|x: Seq<char>|
                #[trigger] names_contain(out@, x) <==> (names_contain(a@.take(i + 1), x) && !names_contain(b@, x)) by {
                let t = a@.take(i + 1);
                assert(t[i as int] == a@[i as int]);
                if names_contain(a@.take(i as int), x) {
                    let k = choose|k: int| 0 <= k < i && #[trigger] a@.take(i as int)[k]@ == x;
                    assert(t[k] == a@.take(i as int)[k]);
                }
                if names_contain(before, x) {
                    let k = choose|k: int| 0 <= k < before.len() && #[trigger] before[k]@ == x;
                    assert(out@[k] == before[k]);
                }
                if x == n {
                    assert(t[i as int]@ == x);
                    if !in_b && !seen {
                        assert(out@[before.len() as int]@ == x);
                    }
                } else {
                    if names_contain(t, x) {
                        let k = choose|k: int| 0 <= k < i + 1 && #[trigger] t[k]@ == x;
                        assert(k != i);
                        assert(a@.take(i as int)[k] == t[k]);
                    }
                    if names_contain(out@, x) {
                        let k = choose|k: int| 0 <= k < out@.len() && #[trigger] out@[k]@ == x;
                        assert(k < before.len());
                        assert(before[k] == out@[k]);
                    }
                }
            }
        }
        i = i + 1;
    }
    proof {
        assert(a@.take(a@.len() as int) == a@);
    }
    out
}

/// The outcome of comparing records with directories.
#[derive(Debug)]
pub struct IntegrityReport {
    /// Server names recorded without a directory.
    pub missing_dirs: Vec<String>,
    /// Directory names without a record.
    pub unregistered_dirs: Vec<String>,
}

/// Compares the recorded server names with the directory names found on
/// disk: each list of the report holds every name of one side that the
/// other lacks, once.
pub fn integrity_report(db_names: &Vec<String>, disk_names: &Vec<String>) -> (r: IntegrityReport)
    ensures
        no_repeats(r.missing_dirs@),
        no_repeats(r.unregistered_dirs@),
        forall|x: Seq<char>|
            #[trigger] names_contain(r.missing_dirs@, x) <==> (names_contain(db_names@, x) && !names_contain(
                disk_names@,
                x,
            )),
        forall|x: Seq<char>|
            #[trigger] names_contain(r.unregistered_dirs@, x) <==> (names_contain(disk_names@, x)
                && !names_contain(db_names@, x)),
{
    IntegrityReport {
        missing_dirs: missing_from(db_names, disk_names),
        unregistered_dirs: missing_from(disk_names, db_names),
    }
}

} // verus!
