//! Mod installation rules: what a JAR looks like, where an installed mod
//! goes, and the order mods are listed in.

use vstd::prelude::*;
use crate::entities::ModEntry;
use crate::error::CubedError;
use crate::order::{key_is, sort_by_key_stable, sorted_by_key};
use crate::paths::{file_name, file_name_spec, slash, slash_join};
use crate::text::{chars_of, ends_with_chars, has_suffix};

verus! {

/// The ZIP local-file signature that every JAR starts with: `PK\x03\x04`.
pub open spec fn jar_signature() -> Seq<u8> {
    seq![0x50u8, 0x4Bu8, 0x03u8, 0x04u8]
}

/// Whether the content starts with the JAR signature.
pub open spec fn has_jar_signature_spec(bytes: Seq<u8>) -> bool {
    bytes.len() >= 4 && bytes.take(4) == jar_signature()
}

/// Checks the content of a file offered as a mod.
pub fn validate_jar_bytes(path: &str, bytes: &[u8]) -> (r: Result<(), CubedError>)
    ensures
        has_jar_signature_spec(bytes@) <==> r is Ok,
        r is Err ==> (r matches Err(CubedError::InvalidJarHeader { path: p }) && p@ == path@),
{
    if bytes.len() < 4 || bytes[0] != 0x50 || bytes[1] != 0x4B || bytes[2] != 0x03 || bytes[3] != 0x04 {
        proof {
            if bytes@.len() >= 4 && bytes@.take(4) == jar_signature() {
                assert(bytes@.take(4)[0] == bytes@[0]);
                assert(bytes@.take(4)[1] == bytes@[1]);
                assert(bytes@.take(4)[2] == bytes@[2]);
                assert(bytes@.take(4)[3] == bytes@[3]);
            }
        }
        return Err(CubedError::InvalidJarHeader { path: String::from_str(path) });
    }
    assert(bytes@.take(4) == jar_signature());
    Ok(())
}

/// Where a mod file goes: its file name (which must end in `.jar`) under
/// the server's mods directory.
#[derive(Debug)]
pub struct ModTarget {
    pub file_name: String,
    pub destination: String,
}

/// The file name and destination of a mod to install.
pub fn mod_install_target(source_path: &str, mods_dir: &str) -> (r: Result<ModTarget, CubedError>)
    ensures
        file_name_spec(source_path@) is None ==> (r matches Err(CubedError::InvalidPath { path: p })
            && p@ == source_path@),
        file_name_spec(source_path@) matches Some(n) ==> {
            &&& !has_suffix(n, ".jar"@) ==> (r matches Err(CubedError::NotAJar { file_name: f }) && f@ == n)
            &&& has_suffix(n, ".jar"@) ==> (r matches Ok(t) && t.file_name@ == n && t.destination@
                == slash_join(mods_dir@, n))
        },
{
    let name = match file_name(source_path) {
        None => return Err(CubedError::InvalidPath { path: String::from_str(source_path) }),
        Some(n) => n,
    };
    let cs = chars_of(name.as_str());
    let jar = chars_of(".jar");
    if !ends_with_chars(cs.as_slice(), jar.as_slice()) {
        return Err(CubedError::NotAJar { file_name: name });
    }
    let destination = slash(mods_dir, name.as_str());
    Ok(ModTarget { file_name: name, destination })
}

/// The mods of a server as listed: by file name, ties in stored order.
pub fn list_mods_sorted(mods: Vec<ModEntry>) -> (r: Vec<ModEntry>)
    ensures
        sorted_by_key(r@),
        forall|k: Seq<char>| #[trigger] r@.filter(key_is(k)) == mods@.filter(key_is(k)),
        r@.len() == mods@.len(),
{
    sort_by_key_stable(mods)
}

} // verus!
