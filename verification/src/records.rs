//! The flat record a server is stored as in the local JSON file, the
//! conversions between it and a server, and the opening of a store: when a
//! store is opened after a restart no server process can still be alive,
//! so every record left starting, running or stopping is read as offline
//! from then on. Within one opened store a server reads back as saved.

use vstd::prelude::*;
use crate::entities::{Server, ServerStatus, Timestamp, parse_status, status_named};
use crate::repo::{Record, Table, TableOp, after_ops, last_write, lookup, law_table_ops};
use crate::text::str_eq;
use crate::error::CubedError;
use crate::software::{ServerSoftware, parse_software, software_named};

verus! {

/// A server as written to the JSON store: software and status by name.
#[derive(Debug)]
pub struct ServerRecord {
    pub id: u128,
    pub name: String,
    pub version: String,
    pub software: String,
    pub port: u16,
    pub java_path: String,
    pub status: String,
    pub created_at: Timestamp,
    pub updated_at: Timestamp,
}

/// The status a stored name is read back as: the named status, except that
/// a server left starting, running or stopping comes back offline.
pub open spec fn status_on_reload(s: Seq<char>) -> Option<ServerStatus> {
    match status_named(s) {
        Some(ServerStatus::Crashed) => Some(ServerStatus::Crashed),
        Some(_) => Some(ServerStatus::Offline),
        None => None,
    }
}

/// The record a server is stored as.
pub fn server_to_record(s: &Server) -> (r: ServerRecord)
    ensures
        r.id == s.id,
        r.name@ == s.name@,
        r.version@ == s.version@,
        r.software@ == s.software.name_spec(),
        r.port == s.port,
        r.java_path@ == s.java_path@,
        r.status@ == s.status.name_spec(),
        r.created_at == s.created_at,
        r.updated_at == s.updated_at,
{
    ServerRecord {
        id: s.id,
        name: s.name.clone(),
        version: s.version.clone(),
        software: String::from_str(s.software.name()),
        port: s.port,
        java_path: s.java_path.clone(),
        status: String::from_str(s.status.name()),
        created_at: s.created_at,
        updated_at: s.updated_at,
    }
}

/// The server a stored record is read as: an unknown software name is
/// refused first, then an unknown status name; otherwise the fields are
/// kept as stored.
pub fn record_to_server(r: ServerRecord) -> (res: Result<Server, CubedError>)
    ensures
        software_named(r.software@) is None ==> (res matches Err(CubedError::UnknownSoftware { value })
            && value@ == r.software@),
        software_named(r.software@) is Some && status_named(r.status@) is None ==> (res matches Err(
            CubedError::UnknownStatus { value },
        ) && value@ == r.status@),
        match (software_named(r.software@), status_named(r.status@)) {
            (Some(sw), Some(st)) => res matches Ok(s) && s.id == r.id && s.name@ == r.name@ && s.version@
                == r.version@ && s.software == sw && s.port == r.port && s.java_path@ == r.java_path@
                && s.status == st && s.created_at == r.created_at && s.updated_at == r.updated_at,
            _ => res is Err,
        },
{
    let software = match parse_software(r.software.as_str()) {
        Some(sw) => sw,
        None => return Err(CubedError::UnknownSoftware { value: r.software }),
    };
    let status = match parse_status(r.status.as_str()) {
        Some(st) => st,
        None => return Err(CubedError::UnknownStatus { value: r.status }),
    };
    Ok(
        Server {
            id: r.id,
            name: r.name,
            version: r.version,
            software,
            port: r.port,
            java_path: r.java_path,
            status,
            created_at: r.created_at,
            updated_at: r.updated_at,
        },
    )
}

impl Record for ServerRecord {
    open spec fn key_spec(&self) -> u128 {
        self.id
    }

    fn key(&self) -> (r: u128) {
        self.id
    }

    fn duplicate(&self) -> (r: ServerRecord) {
        ServerRecord {
            id: self.id,
            name: self.name.clone(),
            version: self.version.clone(),
            software: self.software.clone(),
            port: self.port,
            java_path: self.java_path.clone(),
            status: self.status.clone(),
            created_at: self.created_at,
            updated_at: self.updated_at,
        }
    }
}

/// The status name a record holds once its store is reopened: a starting,
/// running or stopping server is offline; any other name is kept.
pub open spec fn reopened_status(s: Seq<char>) -> Seq<char> {
    match status_named(s) {
        Some(st) => if st.is_transitional_spec() {
            "offline"@
        } else {
            s
        },
        None => s,
    }
}

/// `b` is record `a` as a reopened store holds it: the same record with
/// its status name reopened.
pub open spec fn reopened(a: ServerRecord, b: ServerRecord) -> bool {
    &&& b.id == a.id
    &&& b.name@ == a.name@
    &&& b.version@ == a.version@
    &&& b.software@ == a.software@
    &&& b.port == a.port
    &&& b.java_path@ == a.java_path@
    &&& b.status@ == reopened_status(a.status@)
    &&& b.created_at == a.created_at
    &&& b.updated_at == a.updated_at
}

/// The record as a reopened store holds it.
pub fn reopen_record(r: ServerRecord) -> (o: ServerRecord)
    ensures
        reopened(r, o),
{
    let live = match parse_status(r.status.as_str()) {
        Some(st) => st.is_transitional(),
        None => false,
    };
    proof {
        reveal_strlit("offline");
    }
    let status = if live { String::from_str("offline") } else { r.status };
    ServerRecord {
        id: r.id,
        name: r.name,
        version: r.version,
        software: r.software,
        port: r.port,
        java_path: r.java_path,
        status,
        created_at: r.created_at,
        updated_at: r.updated_at,
    }
}

/// Opens a store over the records read from its file: each is reopened,
/// in stored order. Later saves and reads go through the returned table.
pub fn open_records(rows: Vec<ServerRecord>) -> (t: Table<ServerRecord>)
    ensures
        t@.len() == rows@.len(),
        forall|i: int| 0 <= i < rows@.len() ==> reopened(#[trigger] rows@[i], t@[i]),
{
    let mut out: Vec<ServerRecord> = Vec::new();
    let mut i: usize = 0;
    while i < rows.len()
        invariant
            i <= rows@.len(),
            out@.len() == i,
            forall|k: int| 0 <= k < i ==> reopened(#[trigger] rows@[k], out@[k]),
        decreases rows.len() - i,
    {
        out.push(reopen_record(rows[i].duplicate()));
        i = i + 1;
    }
    Table::from_rows(out)
}

impl Table<ServerRecord> {
    /// Whether some stored record uses `port`.
    pub fn record_port_in_use(&self, port: u16) -> (r: bool)
        ensures
            r == exists|i: int| 0 <= i < self@.len() && #[trigger] self@[i].port == port,
    {
        let rows = self.all();
        let mut i: usize = 0;
        while i < rows.len()
            invariant
                i <= rows@.len(),
                rows@ == self@,
                forall|k: int| 0 <= k < i ==> #[trigger] rows@[k].port != port,
            decreases rows.len() - i,
        {
            if rows[i].port == port {
                return true;
            }
            i = i + 1;
        }
        false
    }
}

/// A server as a database row returns it: the port as a 32-bit integer.
#[derive(Debug)]
pub struct ServerRow {
    pub id: u128,
    pub name: String,
    pub version: String,
    pub software: String,
    pub port: i32,
    pub java_path: String,
    pub status: String,
    pub created_at: Timestamp,
    pub updated_at: Timestamp,
}

/// The server a database row is read as: an unknown software name is
/// refused first, then an unknown status name; the status is kept as
/// stored, and the port is the low 16 bits of the stored integer.
pub fn row_to_server(r: ServerRow) -> (res: Result<Server, CubedError>)
    ensures
        software_named(r.software@) is None ==> (res matches Err(CubedError::UnknownSoftware { value })
            && value@ == r.software@),
        software_named(r.software@) is Some && status_named(r.status@) is None ==> (res matches Err(
            CubedError::UnknownStatus { value },
        ) && value@ == r.status@),
        match (software_named(r.software@), status_named(r.status@)) {
            (Some(sw), Some(st)) => res matches Ok(s) && s.id == r.id && s.name@ == r.name@ && s.version@
                == r.version@ && s.software == sw && s.port == r.port as u16 && s.java_path@
                == r.java_path@ && s.status == st && s.created_at == r.created_at && s.updated_at
                == r.updated_at,
            _ => res is Err,
        },
{
    let software = match parse_software(r.software.as_str()) {
        Some(sw) => sw,
        None => return Err(CubedError::UnknownSoftware { value: r.software }),
    };
    let status = match parse_status(r.status.as_str()) {
        Some(st) => st,
        None => return Err(CubedError::UnknownStatus { value: r.status }),
    };
    Ok(
        Server {
            id: r.id,
            name: r.name,
            version: r.version,
            software,
            port: r.port as u16,
            java_path: r.java_path,
            status,
            created_at: r.created_at,
            updated_at: r.updated_at,
        },
    )
}

/// Within one store a server reads back as written: its software and
/// status names are read as what was written. After the store is reopened
/// a status name reads as `status_on_reload` says.
pub proof fn law_record_round_trip(software: ServerSoftware, status: ServerStatus, name: Seq<char>)
    ensures
        software_named(software.name_spec()) == Some(software),
        status_named(status.name_spec()) == Some(status),
        status_named(reopened_status(name)) == status_on_reload(name),
        status_on_reload(status.name_spec()) == Some(
            if status.is_transitional_spec() {
                ServerStatus::Offline
            } else {
                status
            },
        ),
{
    crate::software::law_software_name_round_trip(software);
    reveal_strlit("offline");
    reveal_strlit("starting");
    reveal_strlit("running");
    reveal_strlit("stopping");
    reveal_strlit("crashed");
    assert("offline"@[0] == 'o' && "offline"@.len() == 7);
    assert("starting"@[2] == 'a' && "starting"@.len() == 8);
    assert("running"@[0] == 'r' && "running"@.len() == 7);
    assert("stopping"@[2] == 'o' && "stopping"@.len() == 8);
    assert("crashed"@[0] == 'c' && "crashed"@.len() == 7);
    assert("offline"@ != "starting"@);
    assert("offline"@ != "running"@);
    assert("offline"@ != "stopping"@);
    assert("offline"@ != "crashed"@);
    assert("starting"@ != "running"@);
    assert("starting"@ != "stopping"@);
    assert("starting"@ != "crashed"@);
    assert("running"@ != "stopping"@);
    assert("running"@ != "crashed"@);
    assert("stopping"@ != "crashed"@);
}

proof fn lemma_lookup_reopened(a: Seq<ServerRecord>, b: Seq<ServerRecord>, id: u128)
    requires
        a.len() == b.len(),
        forall|i: int| 0 <= i < a.len() ==> reopened(#[trigger] a[i], b[i]),
    ensures
        lookup(a, id) is None <==> lookup(b, id) is None,
        lookup(b, id) matches Some(y) ==> (lookup(a, id) matches Some(x) && reopened(x, y)),
    decreases a.len(),
{
    if a.len() > 0 {
        let ai = a.drop_last();
        let bi = b.drop_last();
        assert forall|i: int| 0 <= i < ai.len() implies reopened(#[trigger] ai[i], bi[i]) by {
            assert(ai[i] == a[i] && bi[i] == b[i]);
        }
        lemma_lookup_reopened(ai, bi, id);
        assert(reopened(a[a.len() - 1], b[b.len() - 1]));
    }
}

/// What a reopened store holds after any run of saves and deletes (before
/// or after the restart): under each identifier, the record the last write
/// left, read as a reopened store reads it; nothing where the last write
/// was a delete or no write and no earlier row had the identifier.
pub proof fn law_reopened_store(
    rows: Seq<ServerRecord>,
    ops: Seq<TableOp<ServerRecord>>,
    reopened_rows: Seq<ServerRecord>,
    id: u128,
)
    requires
        reopened_rows.len() == after_ops(rows, ops).len(),
        forall|i: int| 0 <= i < reopened_rows.len() ==> reopened(#[trigger] after_ops(rows, ops)[i], reopened_rows[i]),
    ensures
        last_write(rows, ops, id) is None <==> lookup(reopened_rows, id) is None,
        lookup(reopened_rows, id) matches Some(y) ==> (last_write(rows, ops, id) matches Some(x) && reopened(x, y)),
{
    law_table_ops(rows, ops, id);
    lemma_lookup_reopened(after_ops(rows, ops), reopened_rows, id);
}

} // verus!
