//! Record tables: the in-memory content of every repository (servers,
//! backups, mods, modpacks). Saving replaces the record with the same id
//! and appends it; deleting removes every record with the id.

use vstd::prelude::*;
use crate::entities::{Backup, ModEntry, Modpack, Server};

verus! {

broadcast use vstd::seq_lib::group_seq_properties;

/// A record with an identifier.
pub trait Record: Sized {
    spec fn key_spec(&self) -> u128;

    fn key(&self) -> (r: u128)
        ensures
            r == self.key_spec(),
    ;

    fn duplicate(&self) -> (r: Self)
        ensures
            r == *self,
    ;
}

/// A record that belongs to a server.
pub trait Owned: Record {
    spec fn owner_spec(&self) -> u128;

    fn owner(&self) -> (r: u128)
        ensures
            r == self.owner_spec(),
    ;
}

impl Record for Server {
    open spec fn key_spec(&self) -> u128 {
        self.id
    }

    fn key(&self) -> (r: u128) {
        self.id
    }

    fn duplicate(&self) -> (r: Server) {
        Server {
            id: self.id,
            name: self.name.clone(),
            version: self.version.clone(),
            software: self.software,
            port: self.port,
            java_path: self.java_path.clone(),
            status: self.status,
            created_at: self.created_at,
            updated_at: self.updated_at,
        }
    }
}

impl Record for Backup {
    open spec fn key_spec(&self) -> u128 {
        self.id
    }

    fn key(&self) -> (r: u128) {
        self.id
    }

    fn duplicate(&self) -> (r: Backup) {
        Backup {
            id: self.id,
            server_id: self.server_id,
            path: self.path.clone(),
            size_bytes: self.size_bytes,
            created_at: self.created_at,
        }
    }
}

impl Owned for Backup {
    open spec fn owner_spec(&self) -> u128 {
        self.server_id
    }

    fn owner(&self) -> (r: u128) {
        self.server_id
    }
}

impl Record for ModEntry {
    open spec fn key_spec(&self) -> u128 {
        self.id
    }

    fn key(&self) -> (r: u128) {
        self.id
    }

    fn duplicate(&self) -> (r: ModEntry) {
        ModEntry {
            id: self.id,
            server_id: self.server_id,
            file_name: self.file_name.clone(),
            path: self.path.clone(),
        }
    }
}

impl Owned for ModEntry {
    open spec fn owner_spec(&self) -> u128 {
        self.server_id
    }

    fn owner(&self) -> (r: u128) {
        self.server_id
    }
}

impl Record for Modpack {
    open spec fn key_spec(&self) -> u128 {
        self.id
    }

    fn key(&self) -> (r: u128) {
        self.id
    }

    fn duplicate(&self) -> (r: Modpack) {
        Modpack {
            id: self.id,
            server_id: self.server_id,
            name: self.name.clone(),
            format: self.format,
            source_path: self.source_path.clone(),
        }
    }
}

impl Owned for Modpack {
    open spec fn owner_spec(&self) -> u128 {
        self.server_id
    }

    fn owner(&self) -> (r: u128) {
        self.server_id
    }
}

/// Not having identifier `id`.
pub open spec fn key_is_not<T: Record>(id: u128) -> spec_fn(T) -> bool {
    |r: T| r.key_spec() != id
}

/// Belonging to server `sid`.
pub open spec fn owned_by<T: Owned>(sid: u128) -> spec_fn(T) -> bool {
    |r: T| r.owner_spec() == sid
}

/// The first record of `rows` with identifier `id`.
pub open spec fn lookup<T: Record>(rows: Seq<T>, id: u128) -> Option<T>
    decreases rows.len(),
{
    if rows.len() == 0 {
        None
    } else {
        match lookup(rows.drop_last(), id) {
            Some(r) => Some(r),
            None => if rows.last().key_spec() == id {
                Some(rows.last())
            } else {
                None
            },
        }
    }
}

/// The rows after saving `rec`: earlier records with its id removed, then
/// `rec` appended.
pub open spec fn saved<T: Record>(rows: Seq<T>, rec: T) -> Seq<T> {
    rows.filter(key_is_not(rec.key_spec())).push(rec)
}

/// The rows after deleting `id`.
pub open spec fn deleted<T: Record>(rows: Seq<T>, id: u128) -> Seq<T> {
    rows.filter(key_is_not(id))
}

proof fn lemma_lookup_filtered<T: Record>(rows: Seq<T>, id: u128, k: u128)
    ensures
        lookup(rows.filter(key_is_not(id)), k) == if k == id { None } else { lookup(rows, k) },
    decreases rows.len(),
{
    if rows.len() > 0 {
        let init = rows.drop_last();
        lemma_lookup_filtered(init, id, k);
        assert(rows == init.push(rows.last()));
        init.lemma_filter_push(rows.last(), key_is_not(id));
        let fi = init.filter(key_is_not(id));
        if rows.last().key_spec() != id {
            assert(rows.filter(key_is_not(id)) == fi.push(rows.last()));
            assert(fi.push(rows.last()).drop_last() == fi);
            assert(fi.push(rows.last()).last() == rows.last());
        } else {
            assert(rows.filter(key_is_not(id)) == fi);
        }
    } else {
        assert(rows.filter(key_is_not::<T>(id)).len() == 0) by {
            reveal(Seq::filter);
        }
    }
}

proof fn lemma_lookup_prefix<T: Record>(rows: Seq<T>, j: int, id: u128)
    requires
        0 <= j <= rows.len(),
        lookup(rows.take(j), id) is Some,
    ensures
        lookup(rows, id) == lookup(rows.take(j), id),
    decreases rows.len() - j,
{
    if j < rows.len() {
        assert(rows.take(j + 1).drop_last() == rows.take(j));
        lemma_lookup_prefix(rows, j + 1, id);
    } else {
        assert(rows.take(j) == rows);
    }
}

proof fn lemma_lookup_some<T: Record>(rows: Seq<T>, id: u128)
    ensures
        lookup(rows, id) matches Some(r) ==> r.key_spec() == id && rows.contains(r),
    decreases rows.len(),
{
    if rows.len() > 0 {
        lemma_lookup_some(rows.drop_last(), id);
        if lookup(rows.drop_last(), id) is Some {
            let r = lookup(rows.drop_last(), id)->0;
            let k = choose|k: int| 0 <= k < rows.drop_last().len() && rows.drop_last()[k] == r;
            assert(rows[k] == r);
        } else {
            assert(rows[rows.len() - 1] == rows.last());
        }
    }
}

/// A table of records.
#[derive(Debug)]
pub struct Table<T> {
    rows: Vec<T>,
}

impl<T: Record> View for Table<T> {
    type V = Seq<T>;

    closed spec fn view(&self) -> Seq<T> {
        self.rows@
    }
}

/// Copies of the rows of `v`.
fn copy_rows<T: Record>(v: &Vec<T>) -> (r: Vec<T>)
    ensures
        r@ == v@,
{
    let mut out: Vec<T> = Vec::new();
    let mut i: usize = 0;
    while i < v.len()
        invariant
            i <= v@.len(),
            out@ == v@.take(i as int),
        decreases v.len() - i,
    {
        out.push(v[i].duplicate());
        assert(v@.take(i + 1) == v@.take(i as int).push(v@[i as int]));
        i = i + 1;
    }
    assert(v@.take(v@.len() as int) == v@);
    out
}

/// The rows of `v` whose id is not `id`, in order.
fn without_key<T: Record>(v: &Vec<T>, id: u128) -> (r: Vec<T>)
    ensures
        r@ == v@.filter(key_is_not(id)),
{
    let mut out: Vec<T> = Vec::new();
    let mut i: usize = 0;
    while i < v.len()
        invariant
            i <= v@.len(),
            out@ == v@.take(i as int).filter(key_is_not(id)),
        decreases v.len() - i,
    {
        assert(v@.take(i + 1) == v@.take(i as int).push(v@[i as int]));
        proof { v@.take(i as int).lemma_filter_push(v@[i as int], key_is_not(id)); }
        if v[i].key() != id {
            out.push(v[i].duplicate());
        }
        i = i + 1;
    }
    assert(v@.take(v@.len() as int) == v@);
    out
}

impl<T: Record> Table<T> {
    /// An empty table.
    pub fn new() -> (t: Table<T>)
        ensures
            t@ == Seq::<T>::empty(),
    {
        Table { rows: Vec::new() }
    }

    /// A table holding the given rows, as loaded from storage.
    pub fn from_rows(rows: Vec<T>) -> (t: Table<T>)
        ensures
            t@ == rows@,
    {
        Table { rows }
    }

    /// Copies of all rows, in stored order.
    pub fn all(&self) -> (r: Vec<T>)
        ensures
            r@ == self@,
    {
        copy_rows(&self.rows)
    }

    /// Saves `rec`, replacing any record with its id.
    pub fn save(&mut self, rec: T)
        ensures
            final(self)@ == saved(old(self)@, rec),
    {
        let id = rec.key();
        let mut rows = without_key(&self.rows, id);
        rows.push(rec);
        self.rows = rows;
    }

    /// Removes every record with identifier `id`.
    pub fn delete(&mut self, id: u128)
        ensures
            final(self)@ == deleted(old(self)@, id),
    {
        self.rows = without_key(&self.rows, id);
    }

    /// The record with identifier `id`, if any.
    pub fn find_by_id(&self, id: u128) -> (r: Option<T>)
        ensures
            r == lookup(self@, id),
    {
        let mut i: usize = 0;
        while i < self.rows.len()
            invariant
                i <= self.rows@.len(),
                lookup(self.rows@.take(i as int), id) is None,
            decreases self.rows.len() - i,
        {
            assert(self.rows@.take(i + 1).drop_last() == self.rows@.take(i as int));
            if self.rows[i].key() == id {
                proof { lemma_lookup_prefix(self.rows@, i + 1, id); }
                return Some(self.rows[i].duplicate());
            }
            i = i + 1;
        }
        assert(self.rows@.take(self.rows@.len() as int) == self.rows@);
        None
    }
}

impl<T: Owned> Table<T> {
    /// The records of server `server_id`, in stored order.
    pub fn find_by_server(&self, server_id: u128) -> (r: Vec<T>)
        ensures
            r@ == self@.filter(owned_by(server_id)),
    {
        let v = &self.rows;
        let mut out: Vec<T> = Vec::new();
        let mut i: usize = 0;
        while i < v.len()
            invariant
                i <= v@.len(),
                out@ == v@.take(i as int).filter(owned_by(server_id)),
            decreases v.len() - i,
        {
            assert(v@.take(i + 1) == v@.take(i as int).push(v@[i as int]));
            proof { v@.take(i as int).lemma_filter_push(v@[i as int], owned_by(server_id)); }
            if v[i].owner() == server_id {
                out.push(v[i].duplicate());
            }
            i = i + 1;
        }
        assert(v@.take(v@.len() as int) == v@);
        out
    }
}

impl Table<Server> {
    /// Whether some stored server uses `port`.
    pub fn port_in_use(&self, port: u16) -> (r: bool)
        ensures
            r == exists|i: int| 0 <= i < self@.len() && #[trigger] self@[i].port == port,
    {
        let mut i: usize = 0;
        while i < self.rows.len()
            invariant
                i <= self.rows@.len(),
                forall|k: int| 0 <= k < i ==> #[trigger] self.rows@[k].port != port,
            decreases self.rows.len() - i,
        {
            if self.rows[i].port == port {
                return true;
            }
            i = i + 1;
        }
        false
    }
}

/// What a read gives back of a write: after saving `rec`, looking up its id
/// gives `rec`, and every other id gives what it gave before.
pub proof fn law_read_after_save<T: Record>(rows: Seq<T>, rec: T, id: u128)
    ensures
        lookup(saved(rows, rec), id) == if id == rec.key_spec() { Some(rec) } else { lookup(rows, id) },
{
    let f = rows.filter(key_is_not(rec.key_spec()));
    lemma_lookup_filtered(rows, rec.key_spec(), id);
    assert(saved(rows, rec).drop_last() == f);
}

/// After deleting an id nothing is found under it, and every other id gives
/// what it gave before.
pub proof fn law_read_after_delete<T: Record>(rows: Seq<T>, deleted_id: u128, id: u128)
    ensures
        lookup(deleted(rows, deleted_id), id) == if id == deleted_id { None } else { lookup(rows, id) },
{
    lemma_lookup_filtered(rows, deleted_id, id);
}

/// Saving the same record twice is the same as saving it once.
pub proof fn law_save_idempotent<T: Record>(rows: Seq<T>, rec: T)
    ensures
        saved(saved(rows, rec), rec) == saved(rows, rec),
{
    let p = key_is_not::<T>(rec.key_spec());
    let f = rows.filter(p);
    f.lemma_filter_push(rec, p);
    assert forall|k: int| 0 <= k < f.len() implies p(#[trigger] f[k]) by {
        rows.lemma_filter_pred(p, k);
    }
    lemma_filter_keeps_all(f, p);
}

proof fn lemma_filter_keeps_all<T>(s: Seq<T>, p: spec_fn(T) -> bool)
    requires
        forall|k: int| 0 <= k < s.len() ==> p(#[trigger] s[k]),
    ensures
        s.filter(p) == s,
    decreases s.len(),
{
    reveal(Seq::filter);
    if s.len() > 0 {
        lemma_filter_keeps_all(s.drop_last(), p);
        assert(s.drop_last().push(s.last()) == s);
    }
}

/// A found record has the identifier it was looked up by.
pub proof fn law_found_has_key<T: Record>(rows: Seq<T>, id: u128)
    ensures
        lookup(rows, id) matches Some(r) ==> r.key_spec() == id && rows.contains(r),
{
    lemma_lookup_some(rows, id);
}

/// A write to a table.
pub enum TableOp<T> {
    /// `Table::save` of a record.
    Save(T),
    /// `Table::delete` of an identifier.
    Delete(u128),
}

/// The rows after a run of writes, in order.
pub open spec fn after_ops<T: Record>(rows: Seq<T>, ops: Seq<TableOp<T>>) -> Seq<T>
    decreases ops.len(),
{
    if ops.len() == 0 {
        rows
    } else {
        let prev = after_ops(rows, ops.drop_last());
        match ops.last() {
            TableOp::Save(r) => saved(prev, r),
            TableOp::Delete(id) => deleted(prev, id),
        }
    }
}

/// What the last write to `id` left: the last record saved under it, none
/// when it was deleted after that, and the original row when no write
/// touched it.
pub open spec fn last_write<T: Record>(rows: Seq<T>, ops: Seq<TableOp<T>>, id: u128) -> Option<T>
    decreases ops.len(),
{
    if ops.len() == 0 {
        lookup(rows, id)
    } else {
        match ops.last() {
            TableOp::Save(r) => if r.key_spec() == id {
                Some(r)
            } else {
                last_write(rows, ops.drop_last(), id)
            },
            TableOp::Delete(d) => if d == id {
                None
            } else {
                last_write(rows, ops.drop_last(), id)
            },
        }
    }
}

/// No two rows share an identifier.
pub open spec fn unique_keys<T: Record>(rows: Seq<T>) -> bool {
    forall|i: int, j: int| 0 <= i < j < rows.len() ==> #[trigger] rows[i].key_spec() != #[trigger] rows[j].key_spec()
}

proof fn lemma_filter_unique<T: Record>(rows: Seq<T>, id: u128)
    requires
        unique_keys(rows),
    ensures
        unique_keys(rows.filter(key_is_not(id))),
        forall|k: int| 0 <= k < rows.filter(key_is_not(id)).len() ==> #[trigger] rows.filter(key_is_not(id))[k].key_spec() != id,
    decreases rows.len(),
{
    let p = key_is_not::<T>(id);
    reveal(Seq::filter);
    if rows.len() > 0 {
        let init = rows.drop_last();
        assert forall|i: int, j: int| 0 <= i < j < init.len() implies #[trigger] init[i].key_spec() != #[trigger] init[j].key_spec() by {
            assert(init[i] == rows[i] && init[j] == rows[j]);
        }
        lemma_filter_unique(init, id);
        let fi = init.filter(p);
        if p(rows.last()) {
            assert(rows.filter(p) == fi.push(rows.last()));
            assert forall|k: int| 0 <= k < fi.len() implies #[trigger] fi[k].key_spec() != rows.last().key_spec() by {
                init.lemma_filter_contains_rev(p, fi[k]);
                assert(fi.contains(fi[k]));
                assert(init.contains(fi[k]));
                let m = choose|m: int| 0 <= m < init.len() && init[m] == fi[k];
                assert(rows[m] == init[m]);
                assert(rows[rows.len() - 1] == rows.last());
            }
            let f = fi.push(rows.last());
            assert forall|i: int, j: int| 0 <= i < j < f.len() implies #[trigger] f[i].key_spec() != #[trigger] f[j].key_spec() by {
                if j < fi.len() {
                    assert(f[i] == fi[i] && f[j] == fi[j]);
                } else {
                    assert(f[i] == fi[i]);
                }
            }
            assert forall|k: int| 0 <= k < f.len() implies #[trigger] f[k].key_spec() != id by {
                if k < fi.len() {
                    assert(f[k] == fi[k]);
                }
            }
        } else {
            assert(rows.filter(p) == fi);
        }
    }
}

/// What a store holds after any run of saves and deletes: under each
/// identifier, what the last write to it left (the last record saved, or
/// nothing after a delete), else what was there before; and, from rows
/// without a repeated identifier, no identifier twice.
pub proof fn law_table_ops<T: Record>(rows: Seq<T>, ops: Seq<TableOp<T>>, id: u128)
    ensures
        lookup(after_ops(rows, ops), id) == last_write(rows, ops, id),
        unique_keys(rows) ==> unique_keys(after_ops(rows, ops)),
    decreases ops.len(),
{
    if ops.len() > 0 {
        law_table_ops(rows, ops.drop_last(), id);
        let prev = after_ops(rows, ops.drop_last());
        match ops.last() {
            TableOp::Save(r) => {
                law_read_after_save(prev, r, id);
                if unique_keys(rows) {
                    lemma_filter_unique(prev, r.key_spec());
                    let f = prev.filter(key_is_not(r.key_spec()));
                    let g = f.push(r);
                    assert forall|i: int, j: int| 0 <= i < j < g.len() implies #[trigger] g[i].key_spec() != #[trigger] g[j].key_spec() by {
                        if j < f.len() {
                            assert(g[i] == f[i] && g[j] == f[j]);
                        } else {
                            assert(g[i] == f[i]);
                        }
                    }
                }
            },
            TableOp::Delete(d) => {
                law_read_after_delete(prev, d, id);
                if unique_keys(rows) {
                    lemma_filter_unique(prev, d);
                }
            },
        }
    }
}

} // verus!
