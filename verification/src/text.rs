//! Character-level text operations shared by the parsers and path builders.
//!
//! Strings are modelled by their sequence of Unicode scalar values (`Seq<char>`),
//! which is the view that vstd gives to `str` and `String`.

use vstd::prelude::*;

verus! {

// ---------------------------------------------------------------------------
// Specifications
// ---------------------------------------------------------------------------

/// `char::is_whitespace`: the Unicode `White_Space` property.
pub open spec fn is_white(c: char) -> bool {
    let u = c as u32;
    ||| 0x09 <= u <= 0x0D
    ||| u == 0x20
    ||| u == 0x85
    ||| u == 0xA0
    ||| u == 0x1680
    ||| 0x2000 <= u <= 0x200A
    ||| u == 0x2028
    ||| u == 0x2029
    ||| u == 0x202F
    ||| u == 0x205F
    ||| u == 0x3000
}

/// `s` with its leading white space removed (`str::trim_start`).
pub open spec fn trim_start(s: Seq<char>) -> Seq<char>
    decreases s.len(),
{
    if s.len() > 0 && is_white(s[0]) {
        trim_start(s.drop_first())
    } else {
        s
    }
}

/// `s` with its trailing white space removed (`str::trim_end`).
pub open spec fn trim_end(s: Seq<char>) -> Seq<char>
    decreases s.len(),
{
    if s.len() > 0 && is_white(s.last()) {
        trim_end(s.drop_last())
    } else {
        s
    }
}

/// `str::trim`.
pub open spec fn trim(s: Seq<char>) -> Seq<char> {
    trim_end(trim_start(s))
}

/// The pieces of `s` between occurrences of `sep` (`str::split` with a `char`
/// pattern): there is always one more piece than there are separators.
pub open spec fn split_on(s: Seq<char>, sep: char) -> Seq<Seq<char>>
    decreases s.len(),
{
    if s.len() == 0 {
        seq![Seq::<char>::empty()]
    } else {
        let pieces = split_on(s.drop_last(), sep);
        if s.last() == sep {
            pieces.push(Seq::<char>::empty())
        } else {
            pieces.update(pieces.len() - 1, pieces.last().push(s.last()))
        }
    }
}

/// Index of the first occurrence of `c` in `s` (`str::find` with a `char`).
pub open spec fn find_char(s: Seq<char>, c: char) -> Option<int>
    decreases s.len(),
{
    if s.len() == 0 {
        None
    } else if s[0] == c {
        Some(0)
    } else {
        match find_char(s.drop_first(), c) {
            Some(i) => Some(i + 1),
            None => None,
        }
    }
}

/// Index of the last occurrence of `c` in `s` (`str::rfind` with a `char`).
pub open spec fn rfind_char(s: Seq<char>, c: char) -> Option<int>
    decreases s.len(),
{
    if s.len() == 0 {
        None
    } else if s.last() == c {
        Some(s.len() - 1)
    } else {
        rfind_char(s.drop_last(), c)
    }
}

pub open spec fn is_digit(c: char) -> bool {
    '0' <= c && c <= '9'
}

pub open spec fn digit_value(c: char) -> nat {
    (c as u32 - '0' as u32) as nat
}

/// The number written in decimal by the digits `s`.
pub open spec fn decimal_value(s: Seq<char>) -> nat
    decreases s.len(),
{
    if s.len() == 0 {
        0
    } else {
        decimal_value(s.drop_last()) * 10 + digit_value(s.last())
    }
}

pub open spec fn all_digits(s: Seq<char>) -> bool {
    forall|i: int| 0 <= i < s.len() ==> is_digit(#[trigger] s[i])
}

/// `<u32 as FromStr>::from_str`: an optional `+`, then at least one decimal
/// digit and nothing else, denoting a value that fits in `u32`.
pub open spec fn parse_u32_spec(s: Seq<char>) -> Option<u32> {
    let body = if s.len() > 0 && s[0] == '+' { s.drop_first() } else { s };
    if body.len() > 0 && all_digits(body) && decimal_value(body) <= u32::MAX {
        Some(decimal_value(body) as u32)
    } else {
        None
    }
}

/// The decimal digits of `n`, without leading zeros (`n.to_string()`).
pub open spec fn decimal_text(n: nat) -> Seq<char>
    decreases n,
{
    if n < 10 {
        seq![digit_char(n)]
    } else {
        decimal_text(n / 10).push(digit_char(n % 10))
    }
}

pub open spec fn digit_char(d: nat) -> char {
    if d == 0 { '0' }
    else if d == 1 { '1' }
    else if d == 2 { '2' }
    else if d == 3 { '3' }
    else if d == 4 { '4' }
    else if d == 5 { '5' }
    else if d == 6 { '6' }
    else if d == 7 { '7' }
    else if d == 8 { '8' }
    else { '9' }
}

/// `s` begins with `p`.
pub open spec fn has_prefix(s: Seq<char>, p: Seq<char>) -> bool {
    p.len() <= s.len() && s.take(p.len() as int) == p
}

/// `s` ends with `p`.
pub open spec fn has_suffix(s: Seq<char>, p: Seq<char>) -> bool {
    p.len() <= s.len() && s.skip(s.len() - p.len()) == p
}

/// `p` occurs somewhere in `s`.
pub open spec fn has_infix(s: Seq<char>, p: Seq<char>) -> bool {
    exists|i: int| 0 <= i <= s.len() - p.len() && #[trigger] s.subrange(i, i + p.len()) == p
}

/// The elements of `parts` joined with `sep` between consecutive ones.
pub open spec fn join_with(parts: Seq<Seq<char>>, sep: Seq<char>) -> Seq<char>
    decreases parts.len(),
{
    if parts.len() == 0 {
        Seq::<char>::empty()
    } else if parts.len() == 1 {
        parts[0]
    } else {
        join_with(parts.drop_last(), sep) + sep + parts.last()
    }
}

// ---------------------------------------------------------------------------
// Lemmas
// ---------------------------------------------------------------------------

pub proof fn lemma_split_on_nonempty(s: Seq<char>, sep: char)
    ensures
        split_on(s, sep).len() >= 1,
    decreases s.len(),
{
    if s.len() > 0 {
        lemma_split_on_nonempty(s.drop_last(), sep);
    }
}

/// Text without the separator is a single piece.
pub proof fn lemma_split_on_no_sep(s: Seq<char>, sep: char)
    requires
        forall|k: int| 0 <= k < s.len() ==> s[k] != sep,
    ensures
        split_on(s, sep) == seq![s],
    decreases s.len(),
{
    if s.len() > 0 {
        lemma_split_on_no_sep(s.drop_last(), sep);
        assert(s.drop_last().push(s.last()) =~= s);
    } else {
        assert(s =~= Seq::<char>::empty());
    }
}

/// Splitting `a`, a separator and `b` gives the pieces of `a` followed by
/// those of `b`.
pub proof fn lemma_split_on_joined(a: Seq<char>, sep: char, b: Seq<char>)
    ensures
        split_on(a + seq![sep] + b, sep) == split_on(a, sep) + split_on(b, sep),
    decreases b.len(),
{
    let s = a + seq![sep] + b;
    if b.len() == 0 {
        assert(s.drop_last() =~= a);
        assert(b =~= Seq::<char>::empty());
        assert(split_on(a, sep).push(Seq::<char>::empty()) =~= split_on(a, sep) + seq![Seq::<char>::empty()]);
    } else {
        let b1 = b.drop_last();
        lemma_split_on_joined(a, sep, b1);
        lemma_split_on_nonempty(b1, sep);
        assert(s.drop_last() =~= a + seq![sep] + b1);
        assert(s.last() == b.last());
        let pa = split_on(a, sep);
        let pb = split_on(b1, sep);
        if b.last() == sep {
            assert((pa + pb).push(Seq::<char>::empty()) =~= pa + pb.push(Seq::<char>::empty()));
        } else {
            assert((pa + pb).update((pa + pb).len() - 1, (pa + pb).last().push(b.last())) =~= pa + pb.update(
                pb.len() - 1,
                pb.last().push(b.last()),
            ));
        }
    }
}

proof fn lemma_find_char_none(s: Seq<char>, c: char)
    requires
        forall|k: int| 0 <= k < s.len() ==> s[k] != c,
    ensures
        find_char(s, c) is None,
    decreases s.len(),
{
    if s.len() > 0 {
        lemma_find_char_none(s.drop_first(), c);
    }
}

proof fn lemma_find_char_at(s: Seq<char>, c: char, i: int)
    requires
        0 <= i < s.len(),
        s[i] == c,
        forall|k: int| 0 <= k < i ==> s[k] != c,
    ensures
        find_char(s, c) == Some(i),
    decreases i,
{
    if i > 0 {
        lemma_find_char_at(s.drop_first(), c, i - 1);
    }
}

proof fn lemma_rfind_char_none(s: Seq<char>, c: char)
    requires
        forall|k: int| 0 <= k < s.len() ==> s[k] != c,
    ensures
        rfind_char(s, c) is None,
    decreases s.len(),
{
    if s.len() > 0 {
        lemma_rfind_char_none(s.drop_last(), c);
    }
}

proof fn lemma_rfind_char_at(s: Seq<char>, c: char, i: int)
    requires
        0 <= i < s.len(),
        s[i] == c,
        forall|k: int| i < k < s.len() ==> s[k] != c,
    ensures
        rfind_char(s, c) == Some(i),
    decreases s.len(),
{
    if i < s.len() - 1 {
        lemma_rfind_char_at(s.drop_last(), c, i);
    }
}

// ---------------------------------------------------------------------------
// Executable operations
// ---------------------------------------------------------------------------

/// Appends one character to a string (`String::push`).
#[verifier::external_body]
pub(crate) fn push_char(s: &mut String, c: char)
    ensures
        final(s)@ == old(s)@.push(c),
{
    s.push(c);
}

/// The characters of a string slice, in order.
pub fn chars_of(s: &str) -> (v: Vec<char>)
    ensures
        v@ == s@,
{
    let mut v: Vec<char> = Vec::new();
    for c in it: s.chars()
        invariant
            v@ == it.seq().take(it.index() as int),
    {
        v.push(c);
    }
    v
}

/// A string holding exactly the given characters.
pub fn string_of(v: &[char]) -> (s: String)
    ensures
        s@ == v@,
{
    let mut s = String::new();
    let mut i: usize = 0;
    while i < v.len()
        invariant
            i <= v.len(),
            s@ == v@.take(i as int),
        decreases v.len() - i,
    {
        push_char(&mut s, v[i]);
        assert(v@.take(i + 1) == v@.take(i as int).push(v@[i as int]));
        i = i + 1;
    }
    assert(v@.take(v.len() as int) == v@);
    s
}

/// `a` followed by `b`.
pub fn concat(a: &str, b: &str) -> (r: String)
    ensures
        r@ == a@ + b@,
{
    let s = String::from_str(a);
    s.concat(b)
}

/// `a`, then `b`, then `c`.
pub fn concat3(a: &str, b: &str, c: &str) -> (r: String)
    ensures
        r@ == a@ + b@ + c@,
{
    let s = String::from_str(a);
    let s = s.concat(b);
    s.concat(c)
}

/// Whether the character is white space (`char::is_whitespace`).
pub fn char_is_white(c: char) -> (b: bool)
    ensures
        b == is_white(c),
{
    let u = c as u32;
    (0x09 <= u && u <= 0x0D) || u == 0x20 || u == 0x85 || u == 0xA0 || u == 0x1680
        || (0x2000 <= u && u <= 0x200A) || u == 0x2028 || u == 0x2029 || u == 0x202F
        || u == 0x205F || u == 0x3000
}

/// `str::trim`.
pub fn trim_chars(s: &[char]) -> (r: Vec<char>)
    ensures
        r@ == trim(s@),
{
    let n = s.len();
    let mut a: usize = 0;
    assert(s@.subrange(0, n as int) == s@);
    while a < n && char_is_white(s[a])
        invariant
            a <= n,
            n == s@.len(),
            trim_start(s@.subrange(a as int, n as int)) == trim_start(s@),
        decreases n - a,
    {
        assert(s@.subrange(a as int + 1, n as int) == s@.subrange(a as int, n as int).drop_first());
        a = a + 1;
    }
    let mut b: usize = n;
    while b > a && char_is_white(s[b - 1])
        invariant
            a <= b <= n,
            n == s@.len(),
            trim_start(s@) == s@.subrange(a as int, n as int),
            trim_end(s@.subrange(a as int, b as int)) == trim(s@),
        decreases b,
    {
        assert(s@.subrange(a as int, b - 1) == s@.subrange(a as int, b as int).drop_last());
        b = b - 1;
    }
    let mut r: Vec<char> = Vec::new();
    let mut k: usize = a;
    while k < b
        invariant
            a <= k <= b <= n,
            n == s@.len(),
            r@ == s@.subrange(a as int, k as int),
        decreases b - k,
    {
        r.push(s[k]);
        k = k + 1;
    }
    r
}

/// `str::trim`, as a new string.
pub fn trim_text(s: &str) -> (r: String)
    ensures
        r@ == trim(s@),
{
    let cs = chars_of(s);
    let t = trim_chars(cs.as_slice());
    string_of(t.as_slice())
}

/// `str::split` on a `char`, collected.
pub fn split_chars(s: &[char], sep: char) -> (pieces: Vec<Vec<char>>)
    ensures
        pieces@.len() >= 1,
        pieces@.len() == split_on(s@, sep).len(),
        forall|k: int| 0 <= k < pieces@.len() ==> #[trigger] pieces@[k]@ == split_on(s@, sep)[k],
{
    let mut pieces: Vec<Vec<char>> = Vec::new();
    pieces.push(Vec::new());
    let mut i: usize = 0;
    while i < s.len()
        invariant
            i <= s.len(),
            pieces@.len() >= 1,
            pieces@.len() == split_on(s@.take(i as int), sep).len(),
            forall|k: int|
                0 <= k < pieces@.len() ==> #[trigger] pieces@[k]@ == split_on(s@.take(i as int), sep)[k],
        decreases s.len() - i,
    {
        let c = s[i];
        let ghost before = split_on(s@.take(i as int), sep);
        assert(s@.take(i + 1).drop_last() == s@.take(i as int));
        assert(s@.take(i + 1).last() == c);
        if c == sep {
            pieces.push(Vec::new());
        } else {
            let mut piece = pieces.pop().unwrap();
            piece.push(c);
            pieces.push(piece);
            assert(pieces@.len() == before.len());
        }
        i = i + 1;
    }
    assert(s@.take(s.len() as int) == s@);
    pieces
}

/// Position of the first `c` in `s`.
pub fn find_char_in(s: &[char], c: char) -> (r: Option<usize>)
    ensures
        r matches Some(i) ==> i < s@.len() && s@[i as int] == c,
        match r {
            Some(i) => find_char(s@, c) == Some(i as int),
            None => find_char(s@, c) is None,
        },
{
    let mut i: usize = 0;
    while i < s.len()
        invariant
            i <= s.len(),
            forall|k: int| 0 <= k < i ==> s@[k] != c,
        decreases s.len() - i,
    {
        if s[i] == c {
            proof { lemma_find_char_at(s@, c, i as int); }
            return Some(i);
        }
        i = i + 1;
    }
    proof { lemma_find_char_none(s@, c); }
    None
}

/// Position of the last `c` in `s`.
pub fn rfind_char_in(s: &[char], c: char) -> (r: Option<usize>)
    ensures
        r matches Some(i) ==> i < s@.len() && s@[i as int] == c,
        match r {
            Some(i) => rfind_char(s@, c) == Some(i as int),
            None => rfind_char(s@, c) is None,
        },
{
    let mut i: usize = s.len();
    while i > 0
        invariant
            i <= s.len(),
            forall|k: int| i <= k < s.len() ==> s@[k] != c,
        decreases i,
    {
        if s[i - 1] == c {
            proof { lemma_rfind_char_at(s@, c, i - 1); }
            return Some(i - 1);
        }
        i = i - 1;
    }
    proof { lemma_rfind_char_none(s@, c); }
    None
}

/// `s.parse::<u32>().ok()`.
pub fn parse_u32(s: &[char]) -> (r: Option<u32>)
    ensures
        r == parse_u32_spec(s@),
{
    let start: usize = if s.len() > 0 && s[0] == '+' { 1 } else { 0 };
    let ghost body = if s@.len() > 0 && s@[0] == '+' { s@.drop_first() } else { s@ };
    assert(start == 1 <==> (s@.len() > 0 && s@[0] == '+'));
    assert(body == s@.subrange(start as int, s@.len() as int));
    if start >= s.len() {
        assert(body.len() == 0);
        assert(parse_u32_spec(s@) is None);
        return None;
    }
    let mut acc: u64 = 0;
    let mut too_big = false;
    let mut i: usize = start;
    while i < s.len()
        invariant
            start <= i <= s.len(),
            body == s@.subrange(start as int, s@.len() as int),
            body == (if s@.len() > 0 && s@[0] == '+' { s@.drop_first() } else { s@ }),
            all_digits(s@.subrange(start as int, i as int)),
            too_big ==> decimal_value(s@.subrange(start as int, i as int)) > u32::MAX,
            !too_big ==> acc == decimal_value(s@.subrange(start as int, i as int)),
            !too_big ==> acc <= u32::MAX,
        decreases s.len() - i,
    {
        let c = s[i];
        let ghost pre = s@.subrange(start as int, i as int);
        let ghost next = s@.subrange(start as int, i + 1);
        assert(next.drop_last() == pre);
        assert(next.last() == c);
        if !('0' <= c && c <= '9') {
            assert(!all_digits(body)) by {
                assert(body[i - start] == c);
            }
            return None;
        }
        let d = (c as u32 - '0' as u32) as u64;
        if !too_big {
            let v = acc * 10 + d;
            if v > 0xFFFF_FFFF {
                too_big = true;
            } else {
                acc = v;
            }
        }
        assert(all_digits(next)) by {
            assert forall|k: int| 0 <= k < next.len() implies is_digit(#[trigger] next[k]) by {
                if k < pre.len() {
                    assert(next[k] == pre[k]);
                }
            }
        }
        i = i + 1;
    }
    assert(s@.subrange(start as int, s.len() as int) == body);
    if too_big {
        None
    } else {
        Some(acc as u32)
    }
}

/// The digit character for `d < 10`.
fn digit_of(d: u64) -> (c: char)
    requires
        d < 10,
    ensures
        c == digit_char(d as nat),
{
    if d == 0 { '0' }
    else if d == 1 { '1' }
    else if d == 2 { '2' }
    else if d == 3 { '3' }
    else if d == 4 { '4' }
    else if d == 5 { '5' }
    else if d == 6 { '6' }
    else if d == 7 { '7' }
    else if d == 8 { '8' }
    else { '9' }
}

/// `n.to_string()` for an unsigned integer.
pub fn decimal_of(n: u64) -> (r: String)
    ensures
        r@ == decimal_text(n as nat),
    decreases n,
{
    if n < 10 {
        let mut s = String::new();
        push_char(&mut s, digit_of(n));
        s
    } else {
        let mut s = decimal_of(n / 10);
        push_char(&mut s, digit_of(n % 10));
        s
    }
}

} // verus!

verus! {

/// Whether two character sequences are equal.
pub fn eq_chars(a: &[char], b: &[char]) -> (r: bool)
    ensures
        r == (a@ == b@),
{
    if a.len() != b.len() {
        return false;
    }
    let mut i: usize = 0;
    while i < a.len()
        invariant
            i <= a.len(),
            a.len() == b.len(),
            forall|k: int| 0 <= k < i ==> a@[k] == b@[k],
        decreases a.len() - i,
    {
        if a[i] != b[i] {
            return false;
        }
        i = i + 1;
    }
    assert(a@ == b@);
    true
}

/// Whether two strings hold the same characters.
pub fn str_eq(a: &str, b: &str) -> (r: bool)
    ensures
        r == (a@ == b@),
{
    let x = chars_of(a);
    let y = chars_of(b);
    eq_chars(x.as_slice(), y.as_slice())
}

/// Whether `s` begins with `p`.
pub fn starts_with_chars(s: &[char], p: &[char]) -> (r: bool)
    ensures
        r == has_prefix(s@, p@),
{
    if p.len() > s.len() {
        return false;
    }
    let mut i: usize = 0;
    while i < p.len()
        invariant
            i <= p.len() <= s.len(),
            forall|k: int| 0 <= k < i ==> s@[k] == p@[k],
        decreases p.len() - i,
    {
        if s[i] != p[i] {
            assert(s@.take(p.len() as int)[i as int] != p@[i as int]);
            return false;
        }
        i = i + 1;
    }
    assert(s@.take(p.len() as int) == p@);
    true
}

/// Whether `s` ends with `p`.
pub fn ends_with_chars(s: &[char], p: &[char]) -> (r: bool)
    ensures
        r == has_suffix(s@, p@),
{
    if p.len() > s.len() {
        return false;
    }
    let off = s.len() - p.len();
    let mut i: usize = 0;
    while i < p.len()
        invariant
            i <= p.len() <= s.len(),
            off == s.len() - p.len(),
            forall|k: int| 0 <= k < i ==> s@[off + k] == p@[k],
        decreases p.len() - i,
    {
        if s[off + i] != p[i] {
            assert(s@.skip(off as int)[i as int] != p@[i as int]);
            return false;
        }
        i = i + 1;
    }
    assert(s@.skip(off as int) == p@);
    true
}

/// Whether `p` occurs in `s`.
pub fn contains_chars(s: &[char], p: &[char]) -> (r: bool)
    ensures
        r == has_infix(s@, p@),
{
    if p.len() > s.len() {
        return false;
    }
    let mut i: usize = 0;
    while i <= s.len() - p.len()
        invariant
            p.len() <= s.len(),
            i <= s.len() - p.len() + 1,
            forall|j: int| 0 <= j < i ==> #[trigger] s@.subrange(j, j + p.len()) != p@,
        decreases s.len() - p.len() + 1 - i,
    {
        let mut k: usize = 0;
        let mut same = true;
        while k < p.len()
            invariant
                k <= p.len(),
                i + p.len() <= s.len(),
                same == (forall|m: int| 0 <= m < k ==> s@[i + m] == p@[m]),
            decreases p.len() - k,
        {
            if s[i + k] != p[k] {
                same = false;
            }
            k = k + 1;
        }
        if same {
            assert(s@.subrange(i as int, i + p.len()) == p@);
            return true;
        }
        assert(s@.subrange(i as int, i + p.len()) != p@) by {
            let m = choose|m: int| 0 <= m < p.len() && s@[i + m] != p@[m];
            assert(s@.subrange(i as int, i + p.len())[m] == s@[i + m]);
        }
        i = i + 1;
    }
    assert(!has_infix(s@, p@)) by {
        if has_infix(s@, p@) {
            let j = choose|j: int| 0 <= j <= s@.len() - p@.len() && #[trigger] s@.subrange(j, j + p@.len()) == p@;
            assert(j < i);
        }
    }
    false
}

} // verus!

verus! {

/// ASCII upper-case letters mapped to lower case, others unchanged.
pub open spec fn ascii_lower_char(c: char) -> char {
    if 'A' <= c && c <= 'Z' {
        ((c as u32) + 32) as char
    } else {
        c
    }
}

/// `s` with ASCII letters in lower case (`to_lowercase` on ASCII text).
pub open spec fn ascii_lower(s: Seq<char>) -> Seq<char> {
    s.map_values(|c: char| ascii_lower_char(c))
}

} // verus!
