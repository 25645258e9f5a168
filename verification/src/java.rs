//! Java runtime detection rules: which Java a Minecraft version needs, how
//! `java -version` reports its version, and which installation to pick.

use vstd::prelude::*;
use crate::error::CubedError;
use crate::text::{
    lemma_split_on_joined, lemma_split_on_no_sep,
    chars_of, concat, find_char, find_char_in, parse_u32, parse_u32_spec, split_chars, split_on,
    string_of, trim, trim_chars,
};

verus! {

/// A Java runtime found on the machine.
#[derive(Debug)]
pub struct JavaInstallation {
    pub path: String,
    pub major_version: u32,
    pub version_string: String,
}

impl JavaInstallation {
    /// An identical copy.
    pub fn duplicate(&self) -> (r: JavaInstallation)
        ensures
            r == *self,
    {
        JavaInstallation {
            path: self.path.clone(),
            major_version: self.major_version,
            version_string: self.version_string.clone(),
        }
    }
}

/// Locates and inspects Java runtimes.
#[derive(Debug)]
pub struct SystemJavaManager;

impl Default for SystemJavaManager {
    /// The same as `new`.
    fn default() -> (r: SystemJavaManager)
        ensures
            r == SystemJavaManager,
    {
        SystemJavaManager
    }
}

impl SystemJavaManager {
    pub fn new() -> (r: SystemJavaManager) {
        SystemJavaManager
    }

    /// The installation to use for a Minecraft version among the detected
    /// ones: the lowest compatible major version, the first among equals.
    pub fn select_for_version(&self, installations: &Vec<JavaInstallation>, minecraft_version: &str) -> (r:
        Result<JavaInstallation, CubedError>)
        ensures
            match r {
                Ok(inst) => exists|i: int|
                    is_preferred(installations@, min_java_spec(minecraft_version@), i) && inst
                        == installations@[i],
                Err(e) => e == (CubedError::NoCompatibleJava { required: min_java_spec(minecraft_version@) })
                    && forall|j: int|
                    0 <= j < installations@.len() ==> #[trigger] installations@[j].major_version
                        < min_java_spec(minecraft_version@),
            },
    {
        let required = min_java_for_minecraft(minecraft_version);
        select_for_required(installations, required)
    }

    /// Checks that `java` is recent enough for `minecraft_version`.
    pub fn validate_compatibility(&self, java: &JavaInstallation, minecraft_version: &str) -> (r:
        Result<(), CubedError>)
        ensures
            java.major_version >= min_java_spec(minecraft_version@) <==> r is Ok,
            r is Err ==> (r matches Err(CubedError::JavaTooOld { minecraft_version: m, required: q, found: f })
                && m@ == minecraft_version@ && q == min_java_spec(minecraft_version@)
                && f == java.major_version),
    {
        let required = min_java_for_minecraft(minecraft_version);
        if java.major_version < required {
            return Err(
                CubedError::JavaTooOld {
                    minecraft_version: String::from_str(minecraft_version),
                    required,
                    found: java.major_version,
                },
            );
        }
        Ok(())
    }
}

// ---------------------------------------------------------------------------
// Minimum Java version for a Minecraft version
// ---------------------------------------------------------------------------

/// The numbers among `parts`, in order: the pieces that do not parse as
/// `u32` are dropped.
pub open spec fn parsed_numbers(parts: Seq<Seq<char>>) -> Seq<u32>
    decreases parts.len(),
{
    if parts.len() == 0 {
        Seq::<u32>::empty()
    } else {
        let rest = parsed_numbers(parts.drop_last());
        match parse_u32_spec(parts.last()) {
            Some(v) => rest.push(v),
            None => rest,
        }
    }
}

/// Java needed by Minecraft `1.<minor>.<patch>`: 21 from 1.20.5 on, 17 from
/// 1.18, 16 for 1.17, 8 before.
pub open spec fn required_java(minor: u32, patch: u32) -> u32 {
    if minor > 20 || (minor == 20 && patch >= 5) {
        21
    } else if minor >= 18 {
        17
    } else if minor >= 17 {
        16
    } else {
        8
    }
}

/// A later Minecraft version never needs an older Java: the requirement
/// grows with (minor, patch) in lexicographic order. From 1.20.5 on it is
/// Java 21, from 1.18 Java 17, for 1.17 Java 16, and Java 8 before.
pub proof fn law_required_java_monotone(minor1: u32, patch1: u32, minor2: u32, patch2: u32)
    ensures
        (minor1 < minor2 || (minor1 == minor2 && patch1 <= patch2)) ==> required_java(minor1, patch1)
            <= required_java(minor2, patch2),
        required_java(minor1, patch1) == 21 <==> (minor1 > 20 || (minor1 == 20 && patch1 >= 5)),
        required_java(minor1, patch1) == 17 <==> (18 <= minor1 && (minor1 < 20 || (minor1 == 20
            && patch1 < 5))),
        required_java(minor1, patch1) == 16 <==> minor1 == 17,
        required_java(minor1, patch1) == 8 <==> minor1 < 17,
{
}

/// Minimum Java major version for a Minecraft version string: the numeric
/// dot-separated components give minor and patch (second and third); with
/// fewer than two numbers the answer is 8.
pub open spec fn min_java_spec(mc: Seq<char>) -> u32 {
    let nums = parsed_numbers(split_on(mc, '.'));
    if nums.len() >= 3 {
        required_java(nums[1], nums[2])
    } else if nums.len() == 2 {
        required_java(nums[1], 0)
    } else {
        8
    }
}

/// The Java a release needs is read from its second and third numbers:
/// for `<major>.<minor>.<patch>` it is `required_java(minor, patch)`, and
/// for `<major>.<minor>` it is `required_java(minor, 0)`, so that
/// `1.20.6` needs Java 21 and `1.20` Java 17.
pub proof fn law_min_java_of_release(major: Seq<char>, minor: Seq<char>, patch: Seq<char>)
    requires
        parse_u32_spec(major) is Some,
        parse_u32_spec(minor) is Some,
        parse_u32_spec(patch) is Some,
        forall|k: int| 0 <= k < major.len() ==> major[k] != '.',
        forall|k: int| 0 <= k < minor.len() ==> minor[k] != '.',
        forall|k: int| 0 <= k < patch.len() ==> patch[k] != '.',
    ensures
        min_java_spec(major + seq!['.'] + minor + seq!['.'] + patch) == required_java(
            parse_u32_spec(minor)->0,
            parse_u32_spec(patch)->0,
        ),
        min_java_spec(major + seq!['.'] + minor) == required_java(parse_u32_spec(minor)->0, 0),
{
    lemma_split_on_no_sep(major, '.');
    lemma_split_on_no_sep(minor, '.');
    lemma_split_on_no_sep(patch, '.');
    lemma_split_on_joined(major, '.', minor);
    let mm = major + seq!['.'] + minor;
    lemma_split_on_joined(mm, '.', patch);
    let two = seq![major, minor];
    let three = seq![major, minor, patch];
    assert(split_on(mm, '.') =~= two);
    assert(split_on(mm + seq!['.'] + patch, '.') =~= three);
    assert(three.drop_last() =~= two);
    assert(two.drop_last() =~= seq![major]);
    assert(seq![major].drop_last() =~= Seq::<Seq<char>>::empty());
    let x = parse_u32_spec(major)->0;
    let y = parse_u32_spec(minor)->0;
    let z = parse_u32_spec(patch)->0;
    assert(parsed_numbers(Seq::<Seq<char>>::empty()) == Seq::<u32>::empty());
    assert(parsed_numbers(seq![major]) =~= seq![x]);
    assert(parsed_numbers(two) =~= seq![x, y]);
    assert(parsed_numbers(three) =~= seq![x, y, z]);
}

/// The minimum Java major version that a Minecraft version needs.
pub fn min_java_for_minecraft(mc_version: &str) -> (r: u32)
    ensures
        r == min_java_spec(mc_version@),
{
    let chars = chars_of(mc_version);
    let parts = split_chars(chars.as_slice(), '.');
    let ghost sp = split_on(chars@, '.');
    let mut nums: Vec<u32> = Vec::new();
    let mut i: usize = 0;
    while i < parts.len()
        invariant
            i <= parts@.len(),
            parts@.len() == sp.len(),
            forall|k: int| 0 <= k < parts@.len() ==> #[trigger] parts@[k]@ == sp[k],
            nums@ == parsed_numbers(sp.take(i as int)),
        decreases parts.len() - i,
    {
        assert(sp.take(i + 1).drop_last() == sp.take(i as int));
        assert(sp.take(i + 1).last() == parts@[i as int]@);
        match parse_u32(parts[i].as_slice()) {
            Some(v) => nums.push(v),
            None => {},
        }
        i = i + 1;
    }
    assert(sp.take(parts@.len() as int) == sp);
    let (minor, patch) = if nums.len() >= 3 {
        (nums[1], nums[2])
    } else if nums.len() == 2 {
        (nums[1], 0)
    } else {
        return 8;
    };
    if minor > 20 || (minor == 20 && patch >= 5) {
        return 21;
    }
    if minor >= 18 {
        return 17;
    }
    if minor >= 17 {
        return 16;
    }
    8
}

// ---------------------------------------------------------------------------
// `java -version` output
// ---------------------------------------------------------------------------

/// The text between the first two `"` of a line, if it has two.
pub open spec fn quoted_in(line: Seq<char>) -> Option<Seq<char>> {
    match find_char(line, '"') {
        None => None,
        Some(i) => {
            let rest = line.skip(i + 1);
            match find_char(rest, '"') {
                None => None,
                Some(j) => Some(rest.take(j)),
            }
        },
    }
}

/// The quoted text of the first line that has one.
pub open spec fn first_quoted(lines: Seq<Seq<char>>) -> Option<Seq<char>>
    decreases lines.len(),
{
    if lines.len() == 0 {
        None
    } else {
        match quoted_in(lines[0]) {
            Some(q) => Some(q),
            None => first_quoted(lines.drop_first()),
        }
    }
}

/// The major Java version reported by `java -version`: the first quoted
/// version on any line (lines are split at `\n`; a trailing `\r` or a final
/// empty line never holds a quote, so `str::lines` gives the same answer);
/// its first dot-separated number, except that `1.x` means `x` (Java 8 and
/// older report "1.8.0_412").
pub open spec fn major_version_spec(output: Seq<char>) -> Option<u32> {
    match first_quoted(split_on(output, '\n')) {
        None => None,
        Some(q) => {
            let parts = split_on(q, '.');
            match parse_u32_spec(parts[0]) {
                None => None,
                Some(first) => if first == 1 {
                    if parts.len() > 1 {
                        parse_u32_spec(parts[1])
                    } else {
                        None
                    }
                } else {
                    Some(first)
                },
            }
        },
    }
}

/// The quoted text of one line.
fn quoted_of(line: &[char]) -> (r: Option<Vec<char>>)
    ensures
        match r {
            Some(q) => quoted_in(line@) == Some(q@),
            None => quoted_in(line@) is None,
        },
{
    let i = match find_char_in(line, '"') {
        None => return None,
        Some(i) => i,
    };
    let len = line.len();
    assert(i < len);
    let mut rest: Vec<char> = Vec::new();
    let mut k: usize = i + 1;
    while k < line.len()
        invariant
            i < k <= line.len(),
            rest@ == line@.subrange(i + 1, k as int),
        decreases line.len() - k,
    {
        rest.push(line[k]);
        k = k + 1;
    }
    assert(rest@ == line@.skip(i + 1));
    let j = match find_char_in(rest.as_slice(), '"') {
        None => return None,
        Some(j) => j,
    };
    let mut q: Vec<char> = Vec::new();
    let mut m: usize = 0;
    while m < j
        invariant
            m <= j < rest@.len(),
            q@ == rest@.take(m as int),
        decreases j - m,
    {
        q.push(rest[m]);
        assert(rest@.take(m + 1) == rest@.take(m as int).push(rest@[m as int]));
        m = m + 1;
    }
    Some(q)
}

/// Extracts the major version from the output of `java -version`.
pub fn parse_major_version(output: &str) -> (r: Option<u32>)
    ensures
        r == major_version_spec(output@),
{
    let chars = chars_of(output);
    let lines = split_chars(chars.as_slice(), '\n');
    let ghost ls = split_on(chars@, '\n');
    let mut found: Option<Vec<char>> = None;
    let mut i: usize = 0;
    assert(ls.skip(0) == ls);
    while i < lines.len() && found.is_none()
        invariant
            i <= lines@.len(),
            lines@.len() == ls.len(),
            forall|k: int| 0 <= k < lines@.len() ==> #[trigger] lines@[k]@ == ls[k],
            found is None ==> first_quoted(ls) == first_quoted(ls.skip(i as int)),
            found matches Some(q) ==> first_quoted(ls) == Some(q@),
        decreases lines.len() - i,
    {
        assert(ls.skip(i as int)[0] == ls[i as int]);
        assert(ls.skip(i as int).drop_first() == ls.skip(i + 1));
        found = quoted_of(lines[i].as_slice());
        i = i + 1;
    }
    let quoted = match found {
        None => {
            assert(ls.skip(i as int).len() == 0);
            return None;
        },
        Some(q) => q,
    };
    let parts = split_chars(quoted.as_slice(), '.');
    let first = match parse_u32(parts[0].as_slice()) {
        None => return None,
        Some(f) => f,
    };
    if first == 1 {
        if parts.len() > 1 {
            parse_u32(parts[1].as_slice())
        } else {
            None
        }
    } else {
        Some(first)
    }
}

/// The installation described by the output of `<path> -version`, if that
/// output names a version: the version string is the first line, trimmed.
pub fn installation_from_output(path: &str, output: &str) -> (r: Option<JavaInstallation>)
    ensures
        major_version_spec(output@) is None <==> r is None,
        r matches Some(inst) ==> {
            &&& inst.path@ == path@
            &&& Some(inst.major_version) == major_version_spec(output@)
            &&& inst.version_string@ == trim(split_on(output@, '\n')[0])
        },
{
    let major_version = match parse_major_version(output) {
        None => return None,
        Some(v) => v,
    };
    let chars = chars_of(output);
    let lines = split_chars(chars.as_slice(), '\n');
    let first = trim_chars(lines[0].as_slice());
    Some(
        JavaInstallation {
            path: String::from_str(path),
            major_version,
            version_string: string_of(first.as_slice()),
        },
    )
}

/// The Java binary under a `JAVA_HOME` directory.
pub fn java_home_binary(java_home: &str) -> (r: String)
    ensures
        r@ == java_home@ + "/bin/java"@,
{
    concat(java_home, "/bin/java")
}

// ---------------------------------------------------------------------------
// Choosing among installations
// ---------------------------------------------------------------------------

/// `i` is the installation to use: compatible, of the lowest compatible major
/// version, and the first such (`Iterator::min_by_key`).
pub open spec fn is_preferred(s: Seq<JavaInstallation>, required: u32, i: int) -> bool {
    &&& 0 <= i < s.len()
    &&& s[i].major_version >= required
    &&& forall|j: int|
        0 <= j < s.len() && #[trigger] s[j].major_version >= required ==> s[i].major_version
            <= s[j].major_version && (s[j].major_version == s[i].major_version ==> i <= j)
}

/// The installation chosen is compatible and no compatible one has a
/// lower major version (the oldest Java that suffices, not the newest);
/// among equals the first is taken, so the choice is unique.
pub proof fn law_preferred_is_lowest_compatible(s: Seq<JavaInstallation>, required: u32, i: int, j: int)
    ensures
        is_preferred(s, required, i) ==> s[i].major_version >= required,
        is_preferred(s, required, i) && 0 <= j < s.len() && s[j].major_version >= required ==> s[i].major_version
            <= s[j].major_version,
        is_preferred(s, required, i) && 0 <= j < s.len() && s[j].major_version >= required && j < i ==> s[j].major_version
            > s[i].major_version,
        is_preferred(s, required, i) && is_preferred(s, required, j) ==> i == j,
{
    if is_preferred(s, required, i) && 0 <= j < s.len() && s[j].major_version >= required {
        assert(s[j].major_version >= required);
    }
}

/// Index of the installation to use for a required Java version: the lowest
/// compatible major version (not necessarily the newest), the first one
/// among equals; `None` when none is compatible.
pub fn preferred_installation(installations: &Vec<JavaInstallation>, required: u32) -> (r: Option<
    usize,
>)
    ensures
        match r {
            Some(i) => is_preferred(installations@, required, i as int),
            None => forall|j: int|
                0 <= j < installations@.len() ==> #[trigger] installations@[j].major_version
                    < required,
        },
{
    let mut best: Option<usize> = None;
    let mut i: usize = 0;
    while i < installations.len()
        invariant
            i <= installations@.len(),
            match best {
                Some(b) => is_preferred(installations@.take(i as int), required, b as int),
                None => forall|j: int|
                    0 <= j < i ==> #[trigger] installations@[j].major_version < required,
            },
        decreases installations.len() - i,
    {
        let m = installations[i].major_version;
        if m >= required {
            match best {
                None => {
                    best = Some(i);
                },
                Some(b) => {
                    if m < installations[b].major_version {
                        best = Some(i);
                    }
                },
            }
        }
        proof {
            let t = installations@.take(i + 1);
            assert forall|j: int| 0 <= j < i + 1 implies t[j] == installations@[j] by {}
            match best {
                Some(b) => {
                    assert forall|j: int|
                        0 <= j < t.len() && #[trigger] t[j].major_version >= required implies t[b as int].major_version
                        <= t[j].major_version && (t[j].major_version == t[b as int].major_version ==> b <= j) by {
                        if j < i {
                            assert(t[j] == installations@.take(i as int)[j]);
                        }
                    }
                },
                None => {},
            }
        }
        i = i + 1;
    }
    assert(installations@.take(i as int) == installations@);
    best
}

/// Picks the installation for a required version, or says that none fits.
pub fn select_for_required(installations: &Vec<JavaInstallation>, required: u32) -> (r: Result<
    JavaInstallation,
    CubedError,
>)
    ensures
        match r {
            Ok(inst) => exists|i: int|
                is_preferred(installations@, required, i) && inst == installations@[i],
            Err(e) => e == (CubedError::NoCompatibleJava { required }) && forall|j: int|
                0 <= j < installations@.len() ==> #[trigger] installations@[j].major_version
                    < required,
        },
{
    match preferred_installation(installations, required) {
        Some(i) => Ok(installations[i].duplicate()),
        None => Err(CubedError::NoCompatibleJava { required }),
    }
}

/// Whether some installation already has this path.
pub fn has_path(found: &Vec<JavaInstallation>, path: &str) -> (r: bool)
    ensures
        r == exists|j: int| 0 <= j < found@.len() && #[trigger] found@[j].path@ == path@,
{
    let mut i: usize = 0;
    while i < found.len()
        invariant
            i <= found@.len(),
            forall|j: int| 0 <= j < i ==> #[trigger] found@[j].path@ != path@,
        decreases found.len() - i,
    {
        if crate::text::str_eq(found[i].path.as_str(), path) {
            return true;
        }
        i = i + 1;
    }
    false
}

/// Adds an installation unless one with the same path is already listed.
pub fn add_if_new(found: &mut Vec<JavaInstallation>, inst: JavaInstallation)
    ensures
        (exists|j: int| 0 <= j < old(found)@.len() && #[trigger] old(found)@[j].path@ == inst.path@)
            ==> final(found)@ == old(found)@,
        !(exists|j: int| 0 <= j < old(found)@.len() && #[trigger] old(found)@[j].path@ == inst.path@)
            ==> final(found)@ == old(found)@.push(inst),
{
    if !has_path(found, inst.path.as_str()) {
        found.push(inst);
    }
}

} // verus!

verus! {

/// The installations of `s` with major version `m`, in their order in `s`.
pub open spec fn with_major(s: Seq<JavaInstallation>, m: u32) -> Seq<JavaInstallation> {
    s.filter(major_is(m))
}

/// Having major version `m`.
pub open spec fn major_is(m: u32) -> spec_fn(JavaInstallation) -> bool {
    |j: JavaInstallation| j.major_version == m
}

/// Newest major version first.
pub open spec fn sorted_newest_first(s: Seq<JavaInstallation>) -> bool {
    forall|i: int, j: int|
        0 <= i < j < s.len() ==> #[trigger] s[i].major_version >= #[trigger] s[j].major_version
}

proof fn lemma_filter_none(s: Seq<JavaInstallation>, m: u32)
    requires
        forall|k: int| 0 <= k < s.len() ==> #[trigger] s[k].major_version != m,
    ensures
        with_major(s, m) == Seq::<JavaInstallation>::empty(),
    decreases s.len(),
{
    reveal(Seq::filter);
    if s.len() > 0 {
        lemma_filter_none(s.drop_last(), m);
    }
}

/// Orders installations newest major version first, keeping the found order
/// among installations of the same major version (a stable sort).
pub fn sort_newest_first(v: &Vec<JavaInstallation>) -> (r: Vec<JavaInstallation>)
    ensures
        sorted_newest_first(r@),
        forall|m: u32| #[trigger] with_major(r@, m) == with_major(v@, m),
        r@.len() == v@.len(),
{
    let mut out: Vec<JavaInstallation> = Vec::new();
    let mut i: usize = 0;
    while i < v.len()
        invariant
            i <= v@.len(),
            out@.len() == i,
            sorted_newest_first(out@),
            forall|m: u32| #[trigger] with_major(out@, m) == with_major(v@.take(i as int), m),
        decreases v.len() - i,
    {
        let x = v[i].duplicate();
        let key = x.major_version;
        let mut p: usize = 0;
        while p < out.len() && out[p].major_version >= key
            invariant
                p <= out@.len(),
                forall|k: int| 0 <= k < p ==> #[trigger] out@[k].major_version >= key,
            decreases out.len() - p,
        {
            p = p + 1;
        }
        let ghost old_out = out@;
        out.insert(p, x);
        proof {
            let a = old_out.take(p as int);
            let b = old_out.skip(p as int);
            assert(old_out == a + b);
            assert(old_out.subrange(0, p as int) == a);
            assert(old_out.subrange(p as int, old_out.len() as int) == b);
            assert(out@ == a.push(x) + b);
            assert(a.push(x) == a + seq![x]);
            assert forall|k: int| 0 <= k < b.len() implies #[trigger] b[k].major_version < key by {
                assert(b[k] == old_out[p + k]);
                if p < old_out.len() {
                    assert(old_out[p as int].major_version < key);
                    if k > 0 {
                        assert(old_out[p as int].major_version >= old_out[p + k].major_version);
                    }
                }
            }
            assert forall|m: u32| #[trigger] with_major(out@, m) == with_major(v@.take(i + 1), m) by {
                let pred = major_is(m);
                Seq::filter_distributes_over_add(a.push(x), b, pred);
                Seq::filter_distributes_over_add(a, b, pred);
                a.lemma_filter_push(x, pred);
                assert(v@.take(i + 1) == v@.take(i as int).push(x));
                v@.take(i as int).lemma_filter_push(x, pred);
                assert(with_major(old_out, m) == with_major(v@.take(i as int), m));
                assert(with_major(old_out, m) == a.filter(pred) + b.filter(pred));
                assert(with_major(out@, m) == a.push(x).filter(pred) + b.filter(pred));
                if m == key {
                    assert(pred(x));
                    lemma_filter_none(b, m);
                    assert(b.filter(pred) == Seq::<JavaInstallation>::empty());
                    assert(a.filter(pred) + b.filter(pred) == a.filter(pred));
                    assert(a.filter(pred).push(x) + b.filter(pred) == a.filter(pred).push(x));
                    assert(with_major(v@.take(i + 1), m) == with_major(v@.take(i as int), m).push(x));
                } else {
                    assert(!pred(x));
                    assert(with_major(v@.take(i + 1), m) == with_major(v@.take(i as int), m));
                    assert(with_major(out@, m) == with_major(old_out, m));
                }
            }
            assert forall|s: int, t: int|
                0 <= s < t < out@.len() implies #[trigger] out@[s].major_version
                >= #[trigger] out@[t].major_version by {
                if t < p {
                    assert(out@[s] == old_out[s] && out@[t] == old_out[t]);
                } else if t == p {
                    assert(out@[s] == old_out[s]);
                } else if s < p {
                    assert(out@[s] == old_out[s] && out@[t] == old_out[t - 1]);
                    assert(b[t - 1 - p] == old_out[t - 1]);
                } else if s == p {
                    assert(out@[t] == old_out[t - 1]);
                    assert(b[t - 1 - p] == old_out[t - 1]);
                } else {
                    assert(out@[s] == old_out[s - 1] && out@[t] == old_out[t - 1]);
                }
            }
        }
        i = i + 1;
    }
    assert(v@.take(v@.len() as int) == v@);
    out
}

} // verus!

verus! {

/// Where Java is looked for first, in order.
pub open spec fn candidate_java_paths() -> Seq<Seq<char>> {
    seq![
        "/usr/bin/java"@,
        "/usr/lib/jvm/default-java/bin/java"@,
        "/usr/lib/jvm/java-21-openjdk-amd64/bin/java"@,
        "/usr/lib/jvm/java-17-openjdk-amd64/bin/java"@,
        "/usr/lib/jvm/java-11-openjdk-amd64/bin/java"@,
        "/usr/lib/jvm/java-8-openjdk-amd64/jre/bin/java"@,
        "/opt/homebrew/opt/openjdk@21/bin/java"@,
        "/opt/homebrew/opt/openjdk@17/bin/java"@,
        "/opt/homebrew/opt/openjdk@11/bin/java"@,
        "/usr/local/opt/openjdk@21/bin/java"@,
    ]
}

/// The fixed places where Java is looked for, in order.
pub fn candidate_paths() -> (r: Vec<&'static str>)
    ensures
        r@.len() == candidate_java_paths().len(),
        forall|i: int| 0 <= i < r@.len() ==> #[trigger] r@[i]@ == candidate_java_paths()[i],
{
    vec![
        "/usr/bin/java",
        "/usr/lib/jvm/default-java/bin/java",
        "/usr/lib/jvm/java-21-openjdk-amd64/bin/java",
        "/usr/lib/jvm/java-17-openjdk-amd64/bin/java",
        "/usr/lib/jvm/java-11-openjdk-amd64/bin/java",
        "/usr/lib/jvm/java-8-openjdk-amd64/jre/bin/java",
        "/opt/homebrew/opt/openjdk@21/bin/java",
        "/opt/homebrew/opt/openjdk@17/bin/java",
        "/opt/homebrew/opt/openjdk@11/bin/java",
        "/usr/local/opt/openjdk@21/bin/java",
    ]
}

/// Some installation of `found` has this path.
pub open spec fn path_listed(found: Seq<JavaInstallation>, path: Seq<char>) -> bool {
    exists|j: int| 0 <= j < found.len() && #[trigger] found[j].path@ == path
}

/// The list after the answers for the fixed places: each installation found
/// is added unless its path is already listed.
pub open spec fn with_candidates(answers: Seq<Option<JavaInstallation>>) -> Seq<JavaInstallation>
    decreases answers.len(),
{
    if answers.len() == 0 {
        Seq::empty()
    } else {
        let prev = with_candidates(answers.drop_last());
        match answers.last() {
            Some(inst) => if path_listed(prev, inst.path@) {
                prev
            } else {
                prev.push(inst)
            },
            None => prev,
        }
    }
}

/// A further place Java was asked about, and what was found there.
#[derive(Debug)]
pub struct ProbedPath {
    pub path: String,
    pub answer: Option<JavaInstallation>,
}

/// The list after a further place: a non-empty path not yet listed adds
/// what was found there.
pub open spec fn with_probe(found: Seq<JavaInstallation>, probed: Option<ProbedPath>) -> Seq<JavaInstallation> {
    match probed {
        None => found,
        Some(p) => if p.path@.len() == 0 || path_listed(found, p.path@) {
            found
        } else {
            match p.answer {
                Some(inst) => found.push(inst),
                None => found,
            }
        },
    }
}

/// The installations gathered from the fixed places, then `which java`,
/// then `JAVA_HOME`, before sorting.
pub open spec fn gathered(
    answers: Seq<Option<JavaInstallation>>,
    on_path: Option<ProbedPath>,
    java_home: Option<ProbedPath>,
) -> Seq<JavaInstallation> {
    with_probe(with_probe(with_candidates(answers), on_path), java_home)
}

/// The path `which java` printed: its output, trimmed.
pub fn which_output_path(stdout: &str) -> (r: String)
    ensures
        r@ == trim(stdout@),
{
    let cs = chars_of(stdout);
    let t = trim_chars(cs.as_slice());
    string_of(t.as_slice())
}

/// Adds what was found at a further place, as `with_probe` says.
fn add_probed(found: &mut Vec<JavaInstallation>, probed: Option<ProbedPath>)
    ensures
        final(found)@ == with_probe(old(found)@, probed),
{
    match probed {
        None => {},
        Some(p) => {
            if p.path.as_str().is_empty() || has_path(found, p.path.as_str()) {
                return;
            }
            match p.answer {
                Some(inst) => found.push(inst),
                None => {},
            }
        },
    }
}

/// The installations detected on the machine, from what was found at each
/// fixed place (in the order of `candidate_paths`), at the path `which java`
/// printed, and at `$JAVA_HOME/bin/java`: no path twice, newest major
/// version first, in the order found among equal versions.
pub fn assemble_installations(
    answers: Vec<Option<JavaInstallation>>,
    on_path: Option<ProbedPath>,
    java_home: Option<ProbedPath>,
) -> (r: Vec<JavaInstallation>)
    ensures
        sorted_newest_first(r@),
        r@.len() == gathered(answers@, on_path, java_home).len(),
        forall|m: u32| #[trigger] with_major(r@, m) == with_major(gathered(answers@, on_path, java_home), m),
{
    let mut found: Vec<JavaInstallation> = Vec::new();
    let mut i: usize = 0;
    while i < answers.len()
        invariant
            i <= answers@.len(),
            found@ == with_candidates(answers@.take(i as int)),
        decreases answers.len() - i,
    {
        proof {
            assert(answers@.take(i + 1).drop_last() == answers@.take(i as int));
            assert(answers@.take(i + 1).last() == answers@[i as int]);
        }
        match &answers[i] {
            Some(inst) => {
                add_if_new(&mut found, inst.duplicate());
            },
            None => {},
        }
        i = i + 1;
    }
    proof {
        assert(answers@.take(answers@.len() as int) == answers@);
    }
    add_probed(&mut found, on_path);
    add_probed(&mut found, java_home);
    sort_newest_first(&found)
}

} // verus!
