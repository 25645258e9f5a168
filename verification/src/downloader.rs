//! Download locations of server software: the fixed URL patterns of each
//! project, and the choice among the builds and versions their APIs list.

use vstd::prelude::*;
use crate::error::CubedError;
use crate::software::ServerSoftware;
use crate::text::{chars_of, concat, concat3, decimal_of, decimal_text, split_chars, split_on, str_eq, string_of};

verus! {

/// Where Purpur serves the latest build for a version.
pub open spec fn purpur_url_spec(mc: Seq<char>) -> Seq<char> {
    "https://api.purpurmc.org/v2/purpur/"@ + mc + "/latest/download"@
}

/// The download URL of the latest Purpur build for a Minecraft version.
pub fn purpur_url(mc: &str) -> (r: String)
    ensures
        r@ == purpur_url_spec(mc@),
{
    concat3("https://api.purpurmc.org/v2/purpur/", mc, "/latest/download")
}

/// A URL that needs no network lookup: only Purpur has one.
pub fn static_url(software: &ServerSoftware, mc: &str) -> (r: Result<String, CubedError>)
    ensures
        *software == ServerSoftware::Purpur ==> (r matches Ok(u) && u@ == purpur_url_spec(mc@)),
        *software != ServerSoftware::Purpur ==> r == Err::<String, CubedError>(
            CubedError::OnlineResolutionRequired { software: *software },
        ),
{
    match software {
        ServerSoftware::Purpur => Ok(purpur_url(mc)),
        other => Err(CubedError::OnlineResolutionRequired { software: *other }),
    }
}

/// The file name a downloaded server jar is stored under:
/// `<software in lower case>-<version>.jar`.
pub fn jar_name(software: &ServerSoftware, mc: &str) -> (r: String)
    ensures
        r@ == software.lower_name_spec() + "-"@ + mc@ + ".jar"@,
{
    let s = concat3(software.lower_name(), "-", mc);
    concat(s.as_str(), ".jar")
}

// ---------------------------------------------------------------------------
// Paper
// ---------------------------------------------------------------------------

/// One build listed by the Paper API.
#[derive(Debug)]
pub struct PaperBuild {
    pub build: u32,
    /// The file name of the build's server jar.
    pub application_name: String,
}

/// Where the Paper API lists the builds of a version.
pub fn paper_builds_url(mc: &str) -> (r: String)
    ensures
        r@ == "https://api.papermc.io/v2/projects/paper/versions/"@ + mc@ + "/builds"@,
{
    concat3("https://api.papermc.io/v2/projects/paper/versions/", mc, "/builds")
}

/// `i` is the latest build: the highest build number, the last one among
/// equals (`Iterator::max_by_key`).
pub open spec fn is_latest_build(builds: Seq<PaperBuild>, i: int) -> bool {
    &&& 0 <= i < builds.len()
    &&& forall|j: int|
        0 <= j < builds.len() ==> #[trigger] builds[j].build <= builds[i].build && (builds[j].build
            == builds[i].build ==> j <= i)
}

/// Index of the latest build, `None` when there is none.
pub fn latest_paper_build(builds: &Vec<PaperBuild>) -> (r: Option<usize>)
    ensures
        match r {
            Some(i) => is_latest_build(builds@, i as int),
            None => builds@.len() == 0,
        },
{
    if builds.len() == 0 {
        return None;
    }
    let mut best: usize = 0;
    let mut i: usize = 1;
    while i < builds.len()
        invariant
            1 <= i <= builds@.len(),
            is_latest_build(builds@.take(i as int), best as int),
        decreases builds.len() - i,
    {
        if builds[i].build >= builds[best].build {
            best = i;
        }
        proof {
            let t = builds@.take(i + 1);
            assert forall|j: int| 0 <= j < t.len() implies #[trigger] t[j].build <= t[best as int].build
                && (t[j].build == t[best as int].build ==> j <= best) by {
                if j < i {
                    assert(t[j] == builds@.take(i as int)[j]);
                }
            }
        }
        i = i + 1;
    }
    assert(builds@.take(builds@.len() as int) == builds@);
    Some(best)
}

/// The download URL of a given Paper build.
pub open spec fn paper_download_spec(mc: Seq<char>, build: u32, name: Seq<char>) -> Seq<char> {
    "https://api.papermc.io/v2/projects/paper/versions/"@ + mc + "/builds/"@ + decimal_text(build as nat)
        + "/downloads/"@ + name
}

/// The download URL of the latest Paper build of a version, from the builds
/// that the API lists.
pub fn paper_url_from_builds(mc: &str, builds: &Vec<PaperBuild>) -> (r: Result<String, CubedError>)
    ensures
        builds@.len() == 0 <==> r is Err,
        r is Err ==> (r matches Err(CubedError::NoPaperBuilds { minecraft_version: v }) && v@ == mc@),
        r matches Ok(u) ==> exists|i: int|
            is_latest_build(builds@, i) && u@ == paper_download_spec(
                mc@,
                builds@[i].build,
                builds@[i].application_name@,
            ),
{
    match latest_paper_build(builds) {
        None => Err(CubedError::NoPaperBuilds { minecraft_version: String::from_str(mc) }),
        Some(i) => {
            let b = &builds[i];
            let head = concat3("https://api.papermc.io/v2/projects/paper/versions/", mc, "/builds/");
            let num = decimal_of(b.build as u64);
            let s = concat3(head.as_str(), num.as_str(), "/downloads/");
            let url = concat(s.as_str(), b.application_name.as_str());
            Ok(url)
        },
    }
}

// ---------------------------------------------------------------------------
// Fabric
// ---------------------------------------------------------------------------

/// Where the Fabric meta API lists loaders for a version.
pub fn fabric_loaders_url(mc: &str) -> (r: String)
    ensures
        r@ == "https://meta.fabricmc.net/v2/versions/loader/"@ + mc@,
{
    concat("https://meta.fabricmc.net/v2/versions/loader/", mc)
}

/// Where the Fabric meta API lists installers.
pub fn fabric_installers_url() -> (r: &'static str)
    ensures
        r@ == "https://meta.fabricmc.net/v2/versions/installer"@,
{
    "https://meta.fabricmc.net/v2/versions/installer"
}

/// The loader version to use: the first one listed.
pub fn first_fabric_loader(mc: &str, loaders: &Vec<String>) -> (r: Result<String, CubedError>)
    ensures
        loaders@.len() == 0 <==> r is Err,
        r is Err ==> (r matches Err(CubedError::NoFabricLoader { minecraft_version: v }) && v@ == mc@),
        r matches Ok(l) ==> l@ == loaders@[0]@,
{
    if loaders.len() == 0 {
        Err(CubedError::NoFabricLoader { minecraft_version: String::from_str(mc) })
    } else {
        Ok(loaders[0].clone())
    }
}

/// The server jar URL for a version, loader and the listed installers (the
/// first installer is used).
pub fn fabric_server_url(mc: &str, loader: &str, installers: &Vec<String>) -> (r: Result<
    String,
    CubedError,
>)
    ensures
        installers@.len() == 0 <==> r is Err,
        r is Err ==> r == Err::<String, CubedError>(CubedError::NoFabricInstaller),
        r matches Ok(u) ==> u@ == "https://meta.fabricmc.net/v2/versions/loader/"@ + mc@ + "/"@
            + loader@ + "/"@ + installers@[0]@ + "/server/jar"@,
{
    if installers.len() == 0 {
        return Err(CubedError::NoFabricInstaller);
    }
    let a = concat3("https://meta.fabricmc.net/v2/versions/loader/", mc, "/");
    let b = concat3(a.as_str(), loader, "/");
    let c = concat3(b.as_str(), installers[0].as_str(), "/server/jar");
    Ok(c)
}

// ---------------------------------------------------------------------------
// Forge
// ---------------------------------------------------------------------------

/// Where Forge publishes its promoted versions.
pub fn forge_promotions_url() -> (r: &'static str)
    ensures
        r@ == "https://files.minecraftforge.net/net/minecraftforge/forge/promotions_slim.json"@,
{
    "https://files.minecraftforge.net/net/minecraftforge/forge/promotions_slim.json"
}

/// The value of the first entry of `entries` with key `key`.
pub open spec fn value_for(entries: Seq<(String, String)>, key: Seq<char>) -> Option<Seq<char>>
    decreases entries.len(),
{
    if entries.len() == 0 {
        None
    } else if entries[0].0@ == key {
        Some(entries[0].1@)
    } else {
        value_for(entries.drop_first(), key)
    }
}

fn lookup_value(entries: &Vec<(String, String)>, key: &str) -> (r: Option<String>)
    ensures
        match r {
            Some(v) => value_for(entries@, key@) == Some(v@),
            None => value_for(entries@, key@) is None,
        },
{
    let mut i: usize = 0;
    assert(entries@.skip(0) == entries@);
    while i < entries.len()
        invariant
            i <= entries@.len(),
            value_for(entries@, key@) == value_for(entries@.skip(i as int), key@),
        decreases entries.len() - i,
    {
        assert(entries@.skip(i as int)[0] == entries@[i as int]);
        assert(entries@.skip(i as int).drop_first() == entries@.skip(i + 1));
        if str_eq(entries[i].0.as_str(), key) {
            return Some(entries[i].1.clone());
        }
        i = i + 1;
    }
    None
}

/// The Forge version promoted for a Minecraft version: the recommended one,
/// else the latest.
pub open spec fn forge_version_spec(promos: Seq<(String, String)>, mc: Seq<char>) -> Option<Seq<char>> {
    match value_for(promos, mc + "-recommended"@) {
        Some(v) => Some(v),
        None => value_for(promos, mc + "-latest"@),
    }
}

/// The Forge installer URL for a version, from the promotions listed.
pub fn forge_url_from_promos(mc: &str, promos: &Vec<(String, String)>) -> (r: Result<String, CubedError>)
    ensures
        forge_version_spec(promos@, mc@) is None <==> r is Err,
        r is Err ==> (r matches Err(CubedError::NoForgeVersion { minecraft_version: v }) && v@ == mc@),
        r matches Ok(u) ==> {
            let full = mc@ + "-"@ + forge_version_spec(promos@, mc@)->0;
            u@ == "https://maven.minecraftforge.net/net/minecraftforge/forge/"@ + full + "/forge-"@ + full
                + "-installer.jar"@
        },
{
    let rec_key = concat(mc, "-recommended");
    let version = match lookup_value(promos, rec_key.as_str()) {
        Some(v) => v,
        None => {
            let latest_key = concat(mc, "-latest");
            match lookup_value(promos, latest_key.as_str()) {
                Some(v) => v,
                None => return Err(CubedError::NoForgeVersion { minecraft_version: String::from_str(mc) }),
            }
        },
    };
    let full = concat3(mc, "-", version.as_str());
    let a = concat3("https://maven.minecraftforge.net/net/minecraftforge/forge/", full.as_str(), "/forge-");
    let b = concat3(a.as_str(), full.as_str(), "-installer.jar");
    Ok(b)
}

// ---------------------------------------------------------------------------
// NeoForge
// ---------------------------------------------------------------------------

/// The `n`th dot-separated piece of `mc`, or "0" when there is none.
pub open spec fn piece_or_zero(mc: Seq<char>, n: int) -> Seq<char> {
    let parts = split_on(mc, '.');
    if n < parts.len() {
        parts[n]
    } else {
        "0"@
    }
}

/// NeoForge numbers its builds `<mc minor>.<mc patch>.<build>`: the version
/// prefix of a Minecraft version.
pub open spec fn neoforge_prefix_spec(mc: Seq<char>) -> Seq<char> {
    piece_or_zero(mc, 1) + "."@ + piece_or_zero(mc, 2) + "."@
}

/// The NeoForge version prefix of a Minecraft version.
pub fn neoforge_prefix(mc: &str) -> (r: String)
    ensures
        r@ == neoforge_prefix_spec(mc@),
{
    let cs = chars_of(mc);
    let parts = split_chars(cs.as_slice(), '.');
    let minor = if parts.len() > 1 { string_of(parts[1].as_slice()) } else { String::from_str("0") };
    let patch = if parts.len() > 2 { string_of(parts[2].as_slice()) } else { String::from_str("0") };
    let a = concat3(minor.as_str(), ".", patch.as_str());
    concat(a.as_str(), ".")
}

/// Where the NeoForge Maven API lists the versions with a prefix.
pub fn neoforge_versions_url(mc: &str) -> (r: String)
    ensures
        r@ == "https://maven.neoforged.net/api/maven/versions/releases/net/neoforged/neoforge?filter="@
            + neoforge_prefix_spec(mc@),
{
    let p = neoforge_prefix(mc);
    concat("https://maven.neoforged.net/api/maven/versions/releases/net/neoforged/neoforge?filter=", p.as_str())
}

/// The NeoForge installer URL for a version, from the versions listed (the
/// last one is the latest).
pub fn neoforge_url_from_versions(mc: &str, versions: &Vec<String>) -> (r: Result<String, CubedError>)
    ensures
        versions@.len() == 0 <==> r is Err,
        r is Err ==> (r matches Err(CubedError::NoNeoForgeVersion { minecraft_version: v }) && v@ == mc@),
        r matches Ok(u) ==> {
            let v = versions@.last()@;
            u@ == "https://maven.neoforged.net/releases/net/neoforged/neoforge/"@ + v + "/neoforge-"@ + v
                + "-installer.jar"@
        },
{
    if versions.len() == 0 {
        return Err(CubedError::NoNeoForgeVersion { minecraft_version: String::from_str(mc) });
    }
    let v = versions[versions.len() - 1].as_str();
    let a = concat3("https://maven.neoforged.net/releases/net/neoforged/neoforge/", v, "/neoforge-");
    let b = concat3(a.as_str(), v, "-installer.jar");
    Ok(b)
}

} // verus!
