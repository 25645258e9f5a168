//! Unix path operations on text: file names, stems and joins, as
//! `std::path` defines them for `/`-separated paths.

use vstd::prelude::*;
use crate::text::{
    chars_of, concat, concat3, eq_chars, rfind_char, rfind_char_in, split_chars, split_on, string_of,
};

verus! {

/// A component that names something: neither empty nor `.`.
pub open spec fn is_named_component(c: Seq<char>) -> bool {
    c.len() > 0 && c != "."@
}

/// The named components of a path, in order.
pub open spec fn named_components(p: Seq<char>) -> Seq<Seq<char>> {
    split_on(p, '/').filter(named_pred())
}

/// Being a named component.
pub open spec fn named_pred() -> spec_fn(Seq<char>) -> bool {
    |c: Seq<char>| is_named_component(c)
}

/// `Path::file_name`: the last component, unless the path has none or ends
/// in `..`.
pub open spec fn file_name_spec(p: Seq<char>) -> Option<Seq<char>> {
    let cs = named_components(p);
    if cs.len() == 0 {
        None
    } else if cs.last() == ".."@ {
        None
    } else {
        Some(cs.last())
    }
}

/// `Path::file_stem`: the file name without its last extension; a name whose
/// only dot is the first character keeps it.
pub open spec fn file_stem_spec(p: Seq<char>) -> Option<Seq<char>> {
    match file_name_spec(p) {
        None => None,
        Some(name) => match rfind_char(name, '.') {
            None => Some(name),
            Some(i) => if i == 0 {
                Some(name)
            } else {
                Some(name.take(i))
            },
        },
    }
}

/// `PathBuf::push` on Unix: an absolute `rel` replaces the base; otherwise a
/// `/` is put between them unless the base is empty or already ends in one.
pub open spec fn path_join(base: Seq<char>, rel: Seq<char>) -> Seq<char> {
    if rel.len() > 0 && rel[0] == '/' {
        rel
    } else if base.len() == 0 {
        rel
    } else if base.last() == '/' {
        base + rel
    } else {
        base + "/"@ + rel
    }
}

/// `format!("{}/{}", dir, name)`.
pub open spec fn slash_join(dir: Seq<char>, name: Seq<char>) -> Seq<char> {
    dir + "/"@ + name
}

/// `Path::is_absolute` on Unix: the path starts with `/`.
pub open spec fn is_absolute_spec(p: Seq<char>) -> bool {
    p.len() > 0 && p[0] == '/'
}

/// `dir/name`.
pub fn slash(dir: &str, name: &str) -> (r: String)
    ensures
        r@ == slash_join(dir@, name@),
{
    concat3(dir, "/", name)
}

/// Whether the path is absolute.
pub fn is_absolute(p: &str) -> (r: bool)
    ensures
        r == is_absolute_spec(p@),
{
    let cs = chars_of(p);
    cs.len() > 0 && cs[0] == '/'
}

/// The file name of a path, if it has one.
pub fn file_name(p: &str) -> (r: Option<String>)
    ensures
        match r {
            Some(n) => file_name_spec(p@) == Some(n@),
            None => file_name_spec(p@) is None,
        },
{
    let cs = chars_of(p);
    let pieces = split_chars(cs.as_slice(), '/');
    let ghost sp = split_on(cs@, '/');
    let ghost pred = named_pred();
    let dot = chars_of(".");
    let mut last: Option<usize> = None;
    let mut i: usize = 0;
    let ghost mut kept: Seq<Seq<char>> = Seq::empty();
    while i < pieces.len()
        invariant
            i <= pieces@.len(),
            pieces@.len() == sp.len(),
            forall|k: int| 0 <= k < pieces@.len() ==> #[trigger] pieces@[k]@ == sp[k],
            dot@ == "."@,
            pred == named_pred(),
            sp.take(i as int).filter(pred) == kept,
            match last {
                Some(j) => j < i && kept.len() > 0 && kept.last() == pieces@[j as int]@,
                None => kept.len() == 0,
            },
        decreases pieces.len() - i,
    {
        assert(sp.take(i + 1) == sp.take(i as int).push(sp[i as int]));
        proof { sp.take(i as int).lemma_filter_push(sp[i as int], pred); }
        let named = pieces[i].len() > 0 && !eq_chars(pieces[i].as_slice(), dot.as_slice());
        assert(named == pred(sp[i as int]));
        if named {
            last = Some(i);
            proof { kept = kept.push(sp[i as int]); }
        }
        i = i + 1;
    }
    assert(sp.take(pieces@.len() as int) == sp);
    match last {
        None => None,
        Some(j) => {
            let dotdot = chars_of("..");
            if eq_chars(pieces[j].as_slice(), dotdot.as_slice()) {
                None
            } else {
                Some(string_of(pieces[j].as_slice()))
            }
        },
    }
}

/// The file stem of a path, if it has a file name.
pub fn file_stem(p: &str) -> (r: Option<String>)
    ensures
        match r {
            Some(n) => file_stem_spec(p@) == Some(n@),
            None => file_stem_spec(p@) is None,
        },
{
    let name = match file_name(p) {
        None => return None,
        Some(n) => n,
    };
    let cs = chars_of(name.as_str());
    match rfind_char_in(cs.as_slice(), '.') {
        None => Some(name),
        Some(i) => if i == 0 {
            Some(name)
        } else {
            let mut out: Vec<char> = Vec::new();
            let mut k: usize = 0;
            while k < i
                invariant
                    k <= i,
                    i < cs@.len(),
                    out@ == cs@.take(k as int),
                decreases i - k,
            {
                out.push(cs[k]);
                assert(cs@.take(k + 1) == cs@.take(k as int).push(cs@[k as int]));
                k = k + 1;
            }
            Some(string_of(out.as_slice()))
        },
    }
}

/// `PathBuf::from(base).join(rel)`, as text.
pub fn join(base: &str, rel: &str) -> (r: String)
    ensures
        r@ == path_join(base@, rel@),
{
    let b = chars_of(base);
    let rc = chars_of(rel);
    if rc.len() > 0 && rc[0] == '/' {
        String::from_str(rel)
    } else if b.len() == 0 {
        String::from_str(rel)
    } else if b[b.len() - 1] == '/' {
        concat(base, rel)
    } else {
        concat3(base, "/", rel)
    }
}

} // verus!
