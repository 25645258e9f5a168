//! Modpack installation rules: which files of a Modrinth pack a server
//! needs, how downloaded files are named and counted, and which entries of a
//! server or modpack ZIP are extracted where.

use vstd::prelude::*;
use crate::entities::{Modpack, ModpackFormat};
use crate::order::{key_is, sort_by_key_stable, sorted_by_key};
use crate::paths::{file_name, file_name_spec, file_stem, file_stem_spec, join, path_join, slash, slash_join};
use crate::text::{
    chars_of, concat, concat3, contains_chars, decimal_of, decimal_text, ends_with_chars,
    has_infix, has_prefix, has_suffix, join_with, starts_with_chars, str_eq,
};

verus! {

broadcast use vstd::seq_lib::group_seq_properties;

/// A file listed by a Modrinth `modrinth.index.json`.
#[derive(Debug)]
pub struct MrpackFile {
    pub path: String,
    pub downloads: Vec<String>,
    /// The `env.server` field, when present.
    pub env_server: Option<String>,
}

/// Progress of an installation, reported before each file.
#[derive(Debug)]
pub struct InstallProgress {
    pub total: usize,
    pub done: usize,
    pub current_file: String,
}

/// The outcome of an installation.
#[derive(Debug)]
pub struct InstallSummary {
    pub name: String,
    pub total_files: usize,
    pub downloaded: usize,
    pub skipped: usize,
    pub loader_info: Option<String>,
}

/// A file is needed on a server unless the pack marks it `unsupported` there.
pub open spec fn needed_on_server(f: MrpackFile) -> bool {
    !(f.env_server matches Some(s) && s@ == "unsupported"@)
}

/// Being needed on a server.
pub open spec fn server_pred() -> spec_fn(MrpackFile) -> bool {
    |f: MrpackFile| needed_on_server(f)
}

/// A server keeps every file of the pack except those marked `unsupported`
/// on the server: a file with no server environment, or with `required`,
/// `optional` or any other value, is kept, and nothing kept is marked
/// `unsupported` or comes from outside the pack.
pub proof fn law_server_drops_only_unsupported(files: Seq<MrpackFile>)
    ensures
        forall|i: int|
            0 <= i < files.len() && !(files[i].env_server matches Some(s) && s@ == "unsupported"@)
                ==> #[trigger] files.filter(server_pred()).contains(files[i]),
        forall|f: MrpackFile|
            #[trigger] files.filter(server_pred()).contains(f) ==> files.contains(f) && !(f.env_server matches Some(
                s,
            ) && s@ == "unsupported"@),
{
    assert forall|i: int|
        0 <= i < files.len() && !(files[i].env_server matches Some(s) && s@ == "unsupported"@) implies
        #[trigger] files.filter(server_pred()).contains(files[i]) by {
        assert(server_pred()(files[i]));
        files.lemma_filter_contains(server_pred(), i);
    }
    assert forall|f: MrpackFile| #[trigger] files.filter(server_pred()).contains(f) implies files.contains(f)
        && !(f.env_server matches Some(s) && s@ == "unsupported"@) by {
        let fl = files.filter(server_pred());
        let j = choose|j: int| 0 <= j < fl.len() && fl[j] == f;
        files.lemma_filter_pred(server_pred(), j);
        files.lemma_filter_contains_rev(server_pred(), f);
    }
}

/// The files a server installs, in pack order.
pub fn server_files(files: Vec<MrpackFile>) -> (r: Vec<MrpackFile>)
    ensures
        r@ == files@.filter(server_pred()),
{
    let ghost orig = files@;
    let mut rest = files;
    let mut out: Vec<MrpackFile> = Vec::new();
    let mut i: usize = 0;
    let total = rest.len();
    while rest.len() > 0
        invariant
            i <= orig.len(),
            orig.len() == total,
            rest@ == orig.skip(i as int),
            out@ == orig.take(i as int).filter(server_pred()),
        decreases rest.len(),
    {
        let f = rest.remove(0);
        assert(f == orig[i as int]);
        assert(orig.take(i + 1) == orig.take(i as int).push(orig[i as int]));
        proof { orig.take(i as int).lemma_filter_push(orig[i as int], server_pred()); }
        assert(rest@ == orig.skip(i + 1));
        let unsupported = match &f.env_server {
            Some(s) => str_eq(s.as_str(), "unsupported"),
            None => false,
        };
        if !unsupported {
            out.push(f);
        }
        i = i + 1;
    }
    assert(orig.take(orig.len() as int) == orig);
    out
}

/// The name under which a pack file is saved and reported: the file name of
/// its path, or the whole path when it has none.
pub fn display_name(path: &str) -> (r: String)
    ensures
        r@ == match file_name_spec(path@) {
            Some(n) => n,
            None => path@,
        },
{
    match file_name(path) {
        Some(n) => n,
        None => String::from_str(path),
    }
}

/// The format of a pack file, told by the end of its path: `.mrpack` or
/// `.zip`; any other file is not a supported pack.
pub open spec fn format_of_source_spec(path: Seq<char>) -> Option<ModpackFormat> {
    if has_suffix(path, ".mrpack"@) {
        Some(ModpackFormat::Mrpack)
    } else if has_suffix(path, ".zip"@) {
        Some(ModpackFormat::Zip)
    } else {
        None
    }
}

/// The format of the pack file at `path`, if it is a supported one.
pub fn format_of_source(path: &str) -> (r: Option<ModpackFormat>)
    ensures
        r == format_of_source_spec(path@),
{
    let cs = chars_of(path);
    let mr = chars_of(".mrpack");
    let zip = chars_of(".zip");
    if ends_with_chars(cs.as_slice(), mr.as_slice()) {
        Some(ModpackFormat::Mrpack)
    } else if ends_with_chars(cs.as_slice(), zip.as_slice()) {
        Some(ModpackFormat::Zip)
    } else {
        None
    }
}

/// A server's modpacks as listed: by name, ties in stored order.
pub fn list_modpacks_sorted(packs: Vec<Modpack>) -> (r: Vec<Modpack>)
    ensures
        sorted_by_key(r@),
        forall|k: Seq<char>| #[trigger] r@.filter(key_is(k)) == packs@.filter(key_is(k)),
        r@.len() == packs@.len(),
{
    sort_by_key_stable(packs)
}

/// `k v` for each dependency other than `minecraft`, in the order given.
pub open spec fn loader_entries(deps: Seq<(String, String)>) -> Seq<Seq<char>>
    decreases deps.len(),
{
    if deps.len() == 0 {
        Seq::<Seq<char>>::empty()
    } else {
        let rest = loader_entries(deps.drop_last());
        let (k, v) = deps.last();
        if k@ == "minecraft"@ {
            rest
        } else {
            rest.push(k@ + " "@ + v@)
        }
    }
}

/// The loader text reads the dependencies one by one: those of two lists
/// joined are those of each list in turn, the `minecraft` entry never
/// appears, and any other dependency appears as `<name> <version>`.
pub proof fn law_loader_entries(a: Seq<(String, String)>, b: Seq<(String, String)>, name: String, version: String)
    ensures
        loader_entries(a + b) == loader_entries(a) + loader_entries(b),
        loader_entries(seq![(name, version)]) == if name@ == "minecraft"@ {
            Seq::<Seq<char>>::empty()
        } else {
            seq![name@ + " "@ + version@]
        },
    decreases b.len(),
{
    let one = seq![(name, version)];
    assert(one.drop_last() =~= Seq::<(String, String)>::empty());
    if b.len() == 0 {
        assert(a + b =~= a);
        assert(loader_entries(a) + loader_entries(b) =~= loader_entries(a));
    } else {
        law_loader_entries(a, b.drop_last(), name, version);
        assert((a + b).drop_last() =~= a + b.drop_last());
        assert((a + b).last() == b.last());
        let (k, v) = b.last();
        if k@ != "minecraft"@ {
            assert((loader_entries(a) + loader_entries(b.drop_last())).push(k@ + " "@ + v@) =~= loader_entries(a)
                + loader_entries(b.drop_last()).push(k@ + " "@ + v@));
        }
    }
}

/// The loaders a Modrinth pack depends on: "name version" for each
/// dependency except `minecraft`, joined with ", ".
pub fn loader_info(deps: &Vec<(String, String)>) -> (r: String)
    ensures
        r@ == join_with(loader_entries(deps@), ", "@),
{
    let mut out = String::new();
    let mut count: usize = 0;
    let mut i: usize = 0;
    while i < deps.len()
        invariant
            i <= deps@.len(),
            count == loader_entries(deps@.take(i as int)).len(),
            count <= i,
            out@ == join_with(loader_entries(deps@.take(i as int)), ", "@),
        decreases deps.len() - i,
    {
        assert(deps@.take(i + 1).drop_last() == deps@.take(i as int));
        assert(deps@.take(i + 1).last() == deps@[i as int]);
        let (k, v) = (&deps[i].0, &deps[i].1);
        if !str_eq(k.as_str(), "minecraft") {
            let entry = concat3(k.as_str(), " ", v.as_str());
            let ghost prev = loader_entries(deps@.take(i as int));
            if count > 0 {
                out = concat(out.as_str(), ", ");
            }
            out = concat(out.as_str(), entry.as_str());
            proof {
                let now = prev.push(entry@);
                assert(now.drop_last() == prev);
                if prev.len() == 0 {
                    assert(out@ == entry@);
                }
            }
            count = count + 1;
        }
        i = i + 1;
    }
    assert(deps@.take(deps@.len() as int) == deps@);
    out
}

/// The name of a pack, or "Modpack" when it has none.
pub fn pack_name(name: Option<String>) -> (r: String)
    ensures
        r@ == match name {
            Some(n) => n@,
            None => "Modpack"@,
        },
{
    match name {
        Some(n) => n,
        None => String::from_str("Modpack"),
    }
}

/// The name a CurseForge file is saved under: `<project>-<file>.jar`, a
/// missing number written as 0.
pub fn curseforge_file_name(project_id: Option<u64>, file_id: Option<u64>) -> (r: String)
    ensures
        r@ == decimal_text(
            match project_id {
                Some(p) => p as nat,
                None => 0,
            },
        ) + "-"@ + decimal_text(
            match file_id {
                Some(f) => f as nat,
                None => 0,
            },
        ) + ".jar"@,
{
    let p = match project_id {
        Some(p) => p,
        None => 0,
    };
    let f = match file_id {
        Some(f) => f,
        None => 0,
    };
    let a = decimal_of(p);
    let b = decimal_of(f);
    let s = concat3(a.as_str(), "-", b.as_str());
    concat(s.as_str(), ".jar")
}

/// The name of a pack installed from a plain ZIP: the file stem of its path,
/// or "Modpack".
pub fn zip_pack_name(source_path: &str) -> (r: String)
    ensures
        r@ == match file_stem_spec(source_path@) {
            Some(n) => n,
            None => "Modpack"@,
        },
{
    match file_stem(source_path) {
        Some(n) => n,
        None => String::from_str("Modpack"),
    }
}

/// The number of `true` outcomes.
pub open spec fn count_true(s: Seq<bool>) -> nat
    decreases s.len(),
{
    if s.len() == 0 {
        0
    } else {
        count_true(s.drop_last()) + if s.last() { 1nat } else { 0nat }
    }
}

/// The summary of a download run, from whether each file was downloaded.
pub fn summarize_downloads(name: String, outcomes: &Vec<bool>, loader_info: Option<String>) -> (r:
    InstallSummary)
    ensures
        r.name == name,
        r.total_files == outcomes@.len(),
        r.downloaded == count_true(outcomes@),
        r.skipped == outcomes@.len() - count_true(outcomes@),
        r.loader_info == loader_info,
{
    let mut downloaded: usize = 0;
    let mut i: usize = 0;
    while i < outcomes.len()
        invariant
            i <= outcomes@.len(),
            downloaded == count_true(outcomes@.take(i as int)),
            downloaded <= i,
        decreases outcomes.len() - i,
    {
        assert(outcomes@.take(i + 1).drop_last() == outcomes@.take(i as int));
        if outcomes[i] {
            downloaded = downloaded + 1;
        }
        i = i + 1;
    }
    assert(outcomes@.take(outcomes@.len() as int) == outcomes@);
    InstallSummary {
        name,
        total_files: outcomes.len(),
        downloaded,
        skipped: outcomes.len() - downloaded,
        loader_info,
    }
}

/// A download run accounts for every file: downloaded and skipped add up to
/// the total.
pub proof fn law_download_counts_add_up(outcomes: Seq<bool>)
    ensures
        count_true(outcomes) <= outcomes.len(),
    decreases outcomes.len(),
{
    if outcomes.len() > 0 {
        law_download_counts_add_up(outcomes.drop_last());
    }
}

// ---------------------------------------------------------------------------
// Extraction of server ZIPs
// ---------------------------------------------------------------------------

/// Directories of a server layout that are extracted.
pub open spec fn include_dirs() -> Seq<Seq<char>> {
    seq![
        "mods/"@,
        "config/"@,
        "kubejs/"@,
        "defaultconfigs/"@,
        "scripts/"@,
        "resources/"@,
        "openloader/"@,
        "patchouli_books/"@,
    ]
}

/// Prefixes that are never extracted (worlds, logs, caches).
pub open spec fn skip_prefixes() -> Seq<Seq<char>> {
    seq![
        "world/"@,
        "world_nether/"@,
        "world_the_end/"@,
        "DIM-1/"@,
        "DIM1/"@,
        "logs/"@,
        "crash-reports/"@,
        ".git/"@,
        "local/"@,
        "journeymap/data/"@,
    ]
}

/// `name` starts with one of `prefixes`.
pub open spec fn starts_with_one_of(name: Seq<char>, prefixes: Seq<Seq<char>>) -> bool {
    exists|k: int| 0 <= k < prefixes.len() && has_prefix(name, #[trigger] prefixes[k])
}

fn include_list() -> (r: Vec<&'static str>)
    ensures
        r@.len() == include_dirs().len(),
        forall|k: int| 0 <= k < r@.len() ==> #[trigger] r@[k]@ == include_dirs()[k],
{
    vec!["mods/", "config/", "kubejs/", "defaultconfigs/", "scripts/", "resources/", "openloader/", "patchouli_books/"]
}

fn skip_list() -> (r: Vec<&'static str>)
    ensures
        r@.len() == skip_prefixes().len(),
        forall|k: int| 0 <= k < r@.len() ==> #[trigger] r@[k]@ == skip_prefixes()[k],
{
    vec!["world/", "world_nether/", "world_the_end/", "DIM-1/", "DIM1/", "logs/", "crash-reports/", ".git/", "local/", "journeymap/data/"]
}

fn starts_with_any(name: &[char], prefixes: &Vec<&'static str>) -> (r: bool)
    ensures
        r == exists|k: int| 0 <= k < prefixes@.len() && has_prefix(name@, #[trigger] prefixes@[k]@),
{
    let mut i: usize = 0;
    while i < prefixes.len()
        invariant
            i <= prefixes@.len(),
            forall|k: int| 0 <= k < i ==> !has_prefix(name@, #[trigger] prefixes@[k]@),
        decreases prefixes.len() - i,
    {
        let p = chars_of(prefixes[i]);
        if starts_with_chars(name, p.as_slice()) {
            return true;
        }
        i = i + 1;
    }
    false
}

/// An entry of a ZIP archive, in archive order.
#[derive(Debug)]
pub struct ZipEntryInfo {
    pub name: String,
    pub is_dir: bool,
}

/// What to do with one ZIP entry.
#[derive(Debug)]
pub enum EntryAction {
    Skip,
    /// Create this directory.
    MakeDir(String),
    /// Write the entry's content to this file.
    Extract(String),
}

/// `EntryAction` over character sequences.
pub enum PlannedAction {
    Skip,
    MakeDir(Seq<char>),
    Extract(Seq<char>),
}

impl View for EntryAction {
    type V = PlannedAction;

    open spec fn view(&self) -> PlannedAction {
        match self {
            EntryAction::Skip => PlannedAction::Skip,
            EntryAction::MakeDir(p) => PlannedAction::MakeDir(p@),
            EntryAction::Extract(p) => PlannedAction::Extract(p@),
        }
    }
}

/// An archive has a server layout when some entry lies in one of the
/// extracted directories.
pub open spec fn has_server_layout_spec(names: Seq<Seq<char>>) -> bool {
    exists|i: int| 0 <= i < names.len() && starts_with_one_of(#[trigger] names[i], include_dirs())
}

/// `name` lies in one of the directories a server layout extracts.
pub open spec fn in_extracted_dir(name: Seq<char>) -> bool {
    ||| has_prefix(name, "mods/"@)
    ||| has_prefix(name, "config/"@)
    ||| has_prefix(name, "kubejs/"@)
    ||| has_prefix(name, "defaultconfigs/"@)
    ||| has_prefix(name, "scripts/"@)
    ||| has_prefix(name, "resources/"@)
    ||| has_prefix(name, "openloader/"@)
    ||| has_prefix(name, "patchouli_books/"@)
}

/// The layout is found wherever the telling entry stands: an archive has a
/// server layout exactly when some entry, at any position, lies in `mods/`,
/// `config/`, `kubejs/`, `defaultconfigs/`, `scripts/`, `resources/`,
/// `openloader/` or `patchouli_books/`; so joining two lists of entries in
/// either order has a layout exactly when one of them has.
pub proof fn law_layout_found_anywhere(names: Seq<Seq<char>>, more: Seq<Seq<char>>)
    ensures
        has_server_layout_spec(names) <==> exists|i: int| 0 <= i < names.len() && in_extracted_dir(#[trigger] names[i]),
        has_server_layout_spec(names + more) <==> (has_server_layout_spec(names) || has_server_layout_spec(more)),
        has_server_layout_spec(names + more) == has_server_layout_spec(more + names),
{
    assert forall|n: Seq<char>| #[trigger] starts_with_one_of(n, include_dirs()) <==> in_extracted_dir(n) by {
        lemma_in_extracted_dir(n);
    }
    let ab = names + more;
    let ba = more + names;
    if has_server_layout_spec(names) {
        let i = choose|i: int| 0 <= i < names.len() && starts_with_one_of(#[trigger] names[i], include_dirs());
        assert(ab[i] == names[i]);
        assert(ba[more.len() + i] == names[i]);
    }
    if has_server_layout_spec(more) {
        let i = choose|i: int| 0 <= i < more.len() && starts_with_one_of(#[trigger] more[i], include_dirs());
        assert(ab[names.len() + i] == more[i]);
        assert(ba[i] == more[i]);
    }
    if has_server_layout_spec(ab) {
        let i = choose|i: int| 0 <= i < ab.len() && starts_with_one_of(#[trigger] ab[i], include_dirs());
        if i < names.len() {
            assert(ab[i] == names[i]);
        } else {
            assert(ab[i] == more[i - names.len()]);
        }
    }
    if has_server_layout_spec(ba) {
        let i = choose|i: int| 0 <= i < ba.len() && starts_with_one_of(#[trigger] ba[i], include_dirs());
        if i < more.len() {
            assert(ba[i] == more[i]);
        } else {
            assert(ba[i] == names[i - more.len()]);
        }
    }
}

/// `name` lies under a prefix that is never extracted.
pub open spec fn in_skipped_dir(name: Seq<char>) -> bool {
    ||| has_prefix(name, "world/"@)
    ||| has_prefix(name, "world_nether/"@)
    ||| has_prefix(name, "world_the_end/"@)
    ||| has_prefix(name, "DIM-1/"@)
    ||| has_prefix(name, "DIM1/"@)
    ||| has_prefix(name, "logs/"@)
    ||| has_prefix(name, "crash-reports/"@)
    ||| has_prefix(name, ".git/"@)
    ||| has_prefix(name, "local/"@)
    ||| has_prefix(name, "journeymap/data/"@)
}

/// Where entries go. With a server layout: worlds, logs, crash reports,
/// `.git/`, `local/` and journeymap data are left out; the extracted
/// directories and the files at the root are extracted under the install
/// directory by their own name; other nested entries are left out. Without
/// a layout only `.jar` entries are extracted, into `<install_dir>/mods`.
pub proof fn law_extraction_rules(name: Seq<char>, is_dir: bool, install_dir: Seq<char>)
    ensures
        in_skipped_dir(name) ==> entry_action_spec(name, is_dir, true, install_dir) is Skip,
        !in_skipped_dir(name) && (in_extracted_dir(name) || !has_infix(name, "/"@)) ==> entry_action_spec(
            name,
            is_dir,
            true,
            install_dir,
        ) == (if is_dir {
            PlannedAction::MakeDir(path_join(install_dir, name))
        } else {
            PlannedAction::Extract(path_join(install_dir, name))
        }),
        !in_extracted_dir(name) && has_infix(name, "/"@) ==> entry_action_spec(name, is_dir, true, install_dir) is Skip,
        !has_suffix(name, ".jar"@) ==> entry_action_spec(name, is_dir, false, install_dir) is Skip,
        has_suffix(name, ".jar"@) ==> !(entry_action_spec(name, is_dir, false, install_dir) is Skip),
{
    lemma_in_extracted_dir(name);
    lemma_in_skipped_dir(name);
}

proof fn lemma_in_extracted_dir(n: Seq<char>)
    ensures
        starts_with_one_of(n, include_dirs()) <==> in_extracted_dir(n),
{
    if in_extracted_dir(n) {
        if has_prefix(n, "mods/"@) { assert(has_prefix(n, include_dirs()[0])); }
        if has_prefix(n, "config/"@) { assert(has_prefix(n, include_dirs()[1])); }
        if has_prefix(n, "kubejs/"@) { assert(has_prefix(n, include_dirs()[2])); }
        if has_prefix(n, "defaultconfigs/"@) { assert(has_prefix(n, include_dirs()[3])); }
        if has_prefix(n, "scripts/"@) { assert(has_prefix(n, include_dirs()[4])); }
        if has_prefix(n, "resources/"@) { assert(has_prefix(n, include_dirs()[5])); }
        if has_prefix(n, "openloader/"@) { assert(has_prefix(n, include_dirs()[6])); }
        if has_prefix(n, "patchouli_books/"@) { assert(has_prefix(n, include_dirs()[7])); }
    }
}

proof fn lemma_in_skipped_dir(n: Seq<char>)
    ensures
        starts_with_one_of(n, skip_prefixes()) <==> in_skipped_dir(n),
{
    if in_skipped_dir(n) {
        if has_prefix(n, "world/"@) { assert(has_prefix(n, skip_prefixes()[0])); }
        if has_prefix(n, "world_nether/"@) { assert(has_prefix(n, skip_prefixes()[1])); }
        if has_prefix(n, "world_the_end/"@) { assert(has_prefix(n, skip_prefixes()[2])); }
        if has_prefix(n, "DIM-1/"@) { assert(has_prefix(n, skip_prefixes()[3])); }
        if has_prefix(n, "DIM1/"@) { assert(has_prefix(n, skip_prefixes()[4])); }
        if has_prefix(n, "logs/"@) { assert(has_prefix(n, skip_prefixes()[5])); }
        if has_prefix(n, "crash-reports/"@) { assert(has_prefix(n, skip_prefixes()[6])); }
        if has_prefix(n, ".git/"@) { assert(has_prefix(n, skip_prefixes()[7])); }
        if has_prefix(n, "local/"@) { assert(has_prefix(n, skip_prefixes()[8])); }
        if has_prefix(n, "journeymap/data/"@) { assert(has_prefix(n, skip_prefixes()[9])); }
    }
}

/// The names of the entries.
pub open spec fn entry_names(entries: Seq<ZipEntryInfo>) -> Seq<Seq<char>> {
    entries.map_values(|e: ZipEntryInfo| e.name@)
}

/// Where an entry goes. With a server layout: entries under a skipped
/// prefix are left out; the others are extracted under `install_dir` when
/// they lie in an extracted directory or at the root (no `/` in the name).
/// Without one: only `.jar` entries are extracted, flat into
/// `install_dir/mods`. Directory entries become directories.
pub open spec fn entry_action_spec(name: Seq<char>, is_dir: bool, layout: bool, install_dir: Seq<char>) -> PlannedAction {
    let dest = if layout {
        if starts_with_one_of(name, skip_prefixes()) {
            None
        } else if !starts_with_one_of(name, include_dirs()) && has_infix(name, "/"@) {
            None
        } else {
            Some(path_join(install_dir, name))
        }
    } else {
        if !has_suffix(name, ".jar"@) {
            None
        } else {
            Some(
                path_join(
                    slash_join(install_dir, "mods"@),
                    match file_name_spec(name) {
                        Some(n) => n,
                        None => name,
                    },
                ),
            )
        }
    };
    match dest {
        None => PlannedAction::Skip,
        Some(d) => if is_dir {
            PlannedAction::MakeDir(d)
        } else {
            PlannedAction::Extract(d)
        },
    }
}

/// Whether some entry lies in an extracted directory.
pub fn has_server_layout(entries: &Vec<ZipEntryInfo>) -> (r: bool)
    ensures
        r == has_server_layout_spec(entry_names(entries@)),
{
    let wanted = include_list();
    let mut i: usize = 0;
    while i < entries.len()
        invariant
            i <= entries@.len(),
            wanted@.len() == include_dirs().len(),
            forall|k: int| 0 <= k < wanted@.len() ==> #[trigger] wanted@[k]@ == include_dirs()[k],
            forall|j: int| 0 <= j < i ==> !starts_with_one_of(#[trigger] entries@[j].name@, include_dirs()),
        decreases entries.len() - i,
    {
        let name = chars_of(entries[i].name.as_str());
        let hit = starts_with_any(name.as_slice(), &wanted);
        assert(hit == starts_with_one_of(entries@[i as int].name@, include_dirs())) by {
            if hit {
                let k = choose|k: int| 0 <= k < wanted@.len() && has_prefix(name@, #[trigger] wanted@[k]@);
                assert(has_prefix(name@, include_dirs()[k]));
            }
            if starts_with_one_of(entries@[i as int].name@, include_dirs()) {
                let k = choose|k: int| 0 <= k < include_dirs().len() && has_prefix(name@, #[trigger] include_dirs()[k]);
                assert(has_prefix(name@, wanted@[k]@));
            }
        }
        if hit {
            assert(entry_names(entries@)[i as int] == entries@[i as int].name@);
            return true;
        }
        i = i + 1;
    }
    assert forall|j: int| 0 <= j < entry_names(entries@).len() implies !starts_with_one_of(#[trigger] entry_names(entries@)[j], include_dirs()) by {
        assert(entry_names(entries@)[j] == entries@[j].name@);
    }
    false
}

/// What to do with one entry.
pub fn entry_action(name: &str, is_dir: bool, layout: bool, install_dir: &str) -> (r: EntryAction)
    ensures
        r@ == entry_action_spec(name@, is_dir, layout, install_dir@),
{
    let cs = chars_of(name);
    let dest: Option<String> = if layout {
        let skip = skip_list();
        let wanted = include_list();
        let skipped = starts_with_any(cs.as_slice(), &skip);
        let included = starts_with_any(cs.as_slice(), &wanted);
        let slash_chars = chars_of("/");
        let nested = contains_chars(cs.as_slice(), slash_chars.as_slice());
        assert(skipped == starts_with_one_of(name@, skip_prefixes())) by {
            if skipped {
                let k = choose|k: int| 0 <= k < skip@.len() && has_prefix(cs@, #[trigger] skip@[k]@);
                assert(has_prefix(cs@, skip_prefixes()[k]));
            }
            if starts_with_one_of(name@, skip_prefixes()) {
                let k = choose|k: int| 0 <= k < skip_prefixes().len() && has_prefix(cs@, #[trigger] skip_prefixes()[k]);
                assert(has_prefix(cs@, skip@[k]@));
            }
        }
        assert(included == starts_with_one_of(name@, include_dirs())) by {
            if included {
                let k = choose|k: int| 0 <= k < wanted@.len() && has_prefix(cs@, #[trigger] wanted@[k]@);
                assert(has_prefix(cs@, include_dirs()[k]));
            }
            if starts_with_one_of(name@, include_dirs()) {
                let k = choose|k: int| 0 <= k < include_dirs().len() && has_prefix(cs@, #[trigger] include_dirs()[k]);
                assert(has_prefix(cs@, wanted@[k]@));
            }
        }
        if skipped {
            None
        } else if !included && nested {
            None
        } else {
            Some(join(install_dir, name))
        }
    } else {
        let jar = chars_of(".jar");
        if !ends_with_chars(cs.as_slice(), jar.as_slice()) {
            None
        } else {
            let mods_dir = slash(install_dir, "mods");
            let leaf = match file_name(name) {
                Some(n) => n,
                None => String::from_str(name),
            };
            Some(join(mods_dir.as_str(), leaf.as_str()))
        }
    };
    match dest {
        None => EntryAction::Skip,
        Some(d) => if is_dir {
            EntryAction::MakeDir(d)
        } else {
            EntryAction::Extract(d)
        },
    }
}

/// The plan for extracting an archive, one action per entry in archive
/// order.
pub fn plan_extraction(entries: &Vec<ZipEntryInfo>, install_dir: &str) -> (r: Vec<EntryAction>)
    ensures
        r@.len() == entries@.len(),
        forall|i: int|
            0 <= i < entries@.len() ==> #[trigger] r@[i]@ == entry_action_spec(
                entries@[i].name@,
                entries@[i].is_dir,
                has_server_layout_spec(entry_names(entries@)),
                install_dir@,
            ),
{
    let layout = has_server_layout(entries);
    let mut out: Vec<EntryAction> = Vec::new();
    let mut i: usize = 0;
    while i < entries.len()
        invariant
            i <= entries@.len(),
            out@.len() == i,
            layout == has_server_layout_spec(entry_names(entries@)),
            forall|k: int|
                0 <= k < i ==> #[trigger] out@[k]@ == entry_action_spec(
                    entries@[k].name@,
                    entries@[k].is_dir,
                    layout,
                    install_dir@,
                ),
        decreases entries.len() - i,
    {
        out.push(entry_action(entries[i].name.as_str(), entries[i].is_dir, layout, install_dir));
        i = i + 1;
    }
    out
}

/// The number of files a plan writes.
pub open spec fn extracted_count(plan: Seq<PlannedAction>) -> nat
    decreases plan.len(),
{
    if plan.len() == 0 {
        0
    } else {
        extracted_count(plan.drop_last()) + if plan.last() is Extract { 1nat } else { 0nat }
    }
}

/// How many files a plan writes.
pub fn count_extracted(plan: &Vec<EntryAction>) -> (r: usize)
    ensures
        r == extracted_count(plan@.map_values(|a: EntryAction| a@)),
{
    let ghost views = plan@.map_values(|a: EntryAction| a@);
    let mut n: usize = 0;
    let mut i: usize = 0;
    while i < plan.len()
        invariant
            i <= plan@.len(),
            views == plan@.map_values(|a: EntryAction| a@),
            n == extracted_count(views.take(i as int)),
            n <= i,
        decreases plan.len() - i,
    {
        assert(views.take(i + 1).drop_last() == views.take(i as int));
        assert(views.take(i + 1).last() == plan@[i as int]@);
        match &plan[i] {
            EntryAction::Extract(_) => {
                n = n + 1;
            },
            _ => {},
        }
        i = i + 1;
    }
    assert(views.take(plan@.len() as int) == views);
    n
}

} // verus!
