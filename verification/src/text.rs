//! Character-level string utilities: substring containment, lexicographic
//! order, and path-component splitting over the `Seq<char>` view of strings.

use vstd::prelude::*;
use vstd::string::StrSliceExecFns;

verus! {

/// `needle` occurs in `hay` starting at index `i`.
pub open spec fn contains_at(hay: Seq<char>, needle: Seq<char>, i: int) -> bool {
    &&& 0 <= i
    &&& i + needle.len() <= hay.len()
    &&& hay.subrange(i, i + needle.len() as int) == needle
}

/// `needle` occurs somewhere in `hay`.
pub open spec fn contains_sub(hay: Seq<char>, needle: Seq<char>) -> bool {
    exists|i: int| contains_at(hay, needle, i)
}

/// Collect the characters of a string slice into a vector.
pub fn to_chars(s: &str) -> (v: Vec<char>)
    ensures
        v@ == s@,
{
    let n = s.unicode_len();
    let mut v: Vec<char> = Vec::new();
    let mut i: usize = 0;
    while i < n
        invariant
            n == s@.len(),
            i <= n,
            v@ == s@.take(i as int),
        decreases n - i,
    {
        v.push(s.get_char(i));
        i = i + 1;
    }
    proof {
        assert(v@ =~= s@);
    }
    v
}

fn matches_at(hay: &Vec<char>, needle: &Vec<char>, i: usize) -> (r: bool)
    requires
        i + needle@.len() <= hay@.len(),
    ensures
        r == contains_at(hay@, needle@, i as int),
{
    let hl = hay.len();
    let mut j: usize = 0;
    while j < needle.len()
        invariant
            i + needle@.len() <= hay@.len(),
            hl == hay@.len(),
            j <= needle@.len(),
            forall|k: int| 0 <= k < j ==> hay@[i + k] == needle@[k],
        decreases needle@.len() - j,
    {
        if hay[i + j] != needle[j] {
            proof {
                assert(hay@.subrange(i as int, i + needle@.len() as int)[j as int]
                    == hay@[i + j]);
            }
            return false;
        }
        j = j + 1;
    }
    proof {
        assert(hay@.subrange(i as int, i + needle@.len() as int) =~= needle@);
    }
    true
}

/// Whether `needle` occurs as a contiguous run of characters in `hay`.
pub fn contains_chars(hay: &Vec<char>, needle: &Vec<char>) -> (r: bool)
    ensures
        r == contains_sub(hay@, needle@),
{
    if needle.len() > hay.len() {
        proof {
            assert(forall|i: int| !contains_at(hay@, needle@, i));
        }
        return false;
    }
    let last = hay.len() - needle.len();
    let mut i: usize = 0;
    loop
        invariant
            needle@.len() <= hay@.len(),
            last == hay@.len() - needle@.len(),
            i <= last,
            forall|k: int| 0 <= k < i ==> !contains_at(hay@, needle@, k),
        decreases last - i,
    {
        if matches_at(hay, needle, i) {
            return true;
        }
        if i == last {
            proof {
                assert(forall|k: int| contains_at(hay@, needle@, k) ==> 0 <= k <= last);
            }
            return false;
        }
        i = i + 1;
    }
}

/// Substring containment on string slices.
pub fn str_contains(hay: &str, needle: &str) -> (r: bool)
    ensures
        r == contains_sub(hay@, needle@),
{
    let h = to_chars(hay);
    let n = to_chars(needle);
    contains_chars(&h, &n)
}

/// Equality of two string slices, decided character by character.
pub fn str_eq(a: &str, b: &str) -> (r: bool)
    ensures
        r == (a@ == b@),
{
    let av = to_chars(a);
    let bv = to_chars(b);
    if av.len() != bv.len() {
        return false;
    }
    let mut i: usize = 0;
    while i < av.len()
        invariant
            av@ == a@,
            bv@ == b@,
            av@.len() == bv@.len(),
            i <= av@.len(),
            forall|k: int| 0 <= k < i ==> av@[k] == bv@[k],
        decreases av@.len() - i,
    {
        if av[i] != bv[i] {
            proof {
                assert(a@[i as int] != b@[i as int]);
            }
            return false;
        }
        i = i + 1;
    }
    proof {
        assert(a@ =~= b@);
    }
    true
}

/// Lexicographic order on character sequences, by Unicode scalar value.
/// Total: agrees with the byte order of the UTF-8 encodings.
pub open spec fn lex_le(a: Seq<char>, b: Seq<char>) -> bool
    decreases a.len(),
{
    if a.len() == 0 {
        true
    } else if b.len() == 0 {
        false
    } else if (a[0] as u32) < (b[0] as u32) {
        true
    } else if (a[0] as u32) > (b[0] as u32) {
        false
    } else {
        lex_le(a.drop_first(), b.drop_first())
    }
}

pub proof fn lemma_lex_le_total(a: Seq<char>, b: Seq<char>)
    ensures
        lex_le(a, b) || lex_le(b, a),
    decreases a.len(),
{
    if a.len() != 0 && b.len() != 0 && (a[0] as u32) == (b[0] as u32) {
        lemma_lex_le_total(a.drop_first(), b.drop_first());
    }
}

pub proof fn lemma_lex_le_trans(a: Seq<char>, b: Seq<char>, c: Seq<char>)
    requires
        lex_le(a, b),
        lex_le(b, c),
    ensures
        lex_le(a, c),
    decreases a.len(),
{
    if a.len() != 0 && b.len() != 0 && c.len() != 0 && (a[0] as u32) == (b[0] as u32) && (b[0]
        as u32) == (c[0] as u32) {
        lemma_lex_le_trans(a.drop_first(), b.drop_first(), c.drop_first());
    }
}

fn lex_le_chars(a: &Vec<char>, b: &Vec<char>) -> (r: bool)
    ensures
        r == lex_le(a@, b@),
{
    let n = if a.len() < b.len() {
        a.len()
    } else {
        b.len()
    };
    proof {
        assert(a@.skip(0) =~= a@);
        assert(b@.skip(0) =~= b@);
    }
    let mut i: usize = 0;
    while i < n
        invariant
            n == if a@.len() < b@.len() {
                a@.len()
            } else {
                b@.len()
            },
            i <= n,
            lex_le(a@, b@) == lex_le(a@.skip(i as int), b@.skip(i as int)),
        decreases n - i,
    {
        let ca = a[i];
        let cb = b[i];
        proof {
            assert(a@.skip(i as int)[0] == a@[i as int]);
            assert(b@.skip(i as int)[0] == b@[i as int]);
            assert(a@.skip(i as int).drop_first() =~= a@.skip(i + 1));
            assert(b@.skip(i as int).drop_first() =~= b@.skip(i + 1));
        }
        if (ca as u32) < (cb as u32) {
            return true;
        }
        if (ca as u32) > (cb as u32) {
            return false;
        }
        i = i + 1;
    }
    proof {
        if a@.len() <= b@.len() {
            assert(a@.skip(i as int).len() == 0);
        } else {
            assert(b@.skip(i as int).len() == 0);
            assert(a@.skip(i as int).len() > 0);
        }
    }
    a.len() <= b.len()
}

/// Lexicographic order on string slices.
pub fn str_le(a: &str, b: &str) -> (r: bool)
    ensures
        r == lex_le(a@, b@),
{
    let av = to_chars(a);
    let bv = to_chars(b);
    lex_le_chars(&av, &bv)
}

/// A path-component separator.
pub open spec fn is_sep(c: char) -> bool {
    c == '/' || c == '\\'
}

/// Some character of `s` is a separator.
pub open spec fn has_sep(s: Seq<char>) -> bool {
    exists|i: int| 0 <= i < s.len() && is_sep(s[i])
}

/// Index of the last separator of `s`; meaningful only when `has_sep(s)`.
pub open spec fn last_sep(s: Seq<char>) -> int
    decreases s.len(),
{
    if s.len() == 0 {
        -1
    } else if is_sep(s.last()) {
        s.len() - 1
    } else {
        last_sep(s.drop_last())
    }
}

/// The final path component of `s`: what follows the last separator, or the
/// whole string when it has no separator or ends in one. Trailing separators
/// are kept as given, not normalized away.
pub open spec fn spec_base_name(s: Seq<char>) -> Seq<char> {
    if has_sep(s) && last_sep(s) + 1 < s.len() {
        s.subrange(last_sep(s) + 1, s.len() as int)
    } else {
        s
    }
}

/// The directory part of `s`: what precedes the last separator (the lone
/// leading separator stays, so the parent of `/a` is `/`). `None` when `s`
/// has no separator.
pub open spec fn spec_parent_dir(s: Seq<char>) -> Option<Seq<char>> {
    if has_sep(s) {
        if last_sep(s) == 0 {
            Some(s.subrange(0, 1))
        } else {
            Some(s.subrange(0, last_sep(s)))
        }
    } else {
        None
    }
}

proof fn lemma_last_sep_props(s: Seq<char>)
    ensures
        has_sep(s) ==> {
            &&& 0 <= last_sep(s) < s.len()
            &&& is_sep(s[last_sep(s)])
            &&& forall|j: int| last_sep(s) < j < s.len() ==> !is_sep(s[j])
        },
        !has_sep(s) ==> forall|j: int| 0 <= j < s.len() ==> !is_sep(s[j]),
    decreases s.len(),
{
    if s.len() > 0 && !is_sep(s.last()) {
        lemma_last_sep_props(s.drop_last());
        assert(forall|i: int| 0 <= i < s.len() - 1 ==> s.drop_last()[i] == s[i]);
        if has_sep(s) {
            let w = choose|i: int| 0 <= i < s.len() && is_sep(s[i]);
            assert(w < s.len() - 1 && is_sep(s.drop_last()[w]));
            assert(has_sep(s.drop_last()));
        }
    }
}

fn find_last_sep(v: &Vec<char>) -> (r: Option<usize>)
    ensures
        match r {
            Some(i) => has_sep(v@) && i as int == last_sep(v@),
            None => !has_sep(v@),
        },
{
    let mut i: usize = v.len();
    while i > 0
        invariant
            i <= v@.len(),
            forall|j: int| i <= j < v@.len() ==> !is_sep(v@[j]),
        decreases i,
    {
        i = i - 1;
        let c = v[i];
        if c == '/' || c == '\\' {
            proof {
                assert(is_sep(v@[i as int]));
                assert(has_sep(v@));
                lemma_last_sep_props(v@);
                let l = last_sep(v@);
                if l > i as int {
                    assert(!is_sep(v@[l]));
                    assert(false);
                }
                if l < i as int {
                    assert(!is_sep(v@[i as int]));
                    assert(false);
                }
            }
            return Some(i);
        }
    }
    proof {
        lemma_last_sep_props(v@);
        if has_sep(v@) {
            let l = last_sep(v@);
            assert(is_sep(v@[l]));
            assert(!is_sep(v@[l]));
        }
    }
    None
}

/// The final path component of `path` (see [`spec_base_name`]).
pub fn base_name(path: &str) -> (r: String)
    ensures
        r@ == spec_base_name(path@),
{
    let v = to_chars(path);
    proof {
        lemma_last_sep_props(v@);
    }
    match find_last_sep(&v) {
        Some(i) if i < v.len() && i + 1 < v.len() => {
            let part = path.substring_char(i + 1, v.len());
            part.to_owned()
        },
        _ => path.to_owned(),
    }
}

/// Unicode lower-casing of a character sequence, as `str::to_lowercase`
/// performs it; the result depends on the characters alone.
pub uninterp spec fn lower_of(s: Seq<char>) -> Seq<char>;

/// Relies on str::to_lowercase: Unicode lower-casing, a function of the
/// characters alone; an empty string stays empty.
#[verifier::external_body]
pub fn lowercase(s: &str) -> (r: String)
    ensures
        r@ == lower_of(s@),
        s@.len() == 0 ==> r@.len() == 0,
{
    s.to_lowercase()
}

/// The Unicode `White_Space` property, as `char::is_whitespace` decides it.
pub uninterp spec fn unicode_ws(c: char) -> bool;

/// Relies on char::is_whitespace: the Unicode `White_Space` property of the
/// character alone.
#[verifier::external_body]
pub fn char_is_ws(c: char) -> (r: bool)
    ensures
        r == unicode_ws(c),
{
    c.is_whitespace()
}

pub open spec fn spec_trim_start(s: Seq<char>) -> Seq<char>
    decreases s.len(),
{
    if s.len() > 0 && unicode_ws(s[0]) {
        spec_trim_start(s.drop_first())
    } else {
        s
    }
}

pub open spec fn spec_trim_end(s: Seq<char>) -> Seq<char>
    decreases s.len(),
{
    if s.len() > 0 && unicode_ws(s.last()) {
        spec_trim_end(s.drop_last())
    } else {
        s
    }
}

/// `s` with leading and trailing whitespace removed, as `str::trim` does.
pub open spec fn spec_trim(s: Seq<char>) -> Seq<char> {
    spec_trim_end(spec_trim_start(s))
}

proof fn lemma_trim_start_skip(s: Seq<char>, i: int)
    requires
        0 <= i <= s.len(),
        forall|k: int| 0 <= k < i ==> unicode_ws(s[k]),
    ensures
        spec_trim_start(s) == spec_trim_start(s.skip(i)),
    decreases i,
{
    if i > 0 {
        assert(unicode_ws(s[0]));
        assert(s.drop_first() =~= s.skip(1));
        lemma_trim_start_skip(s.skip(1), i - 1);
        assert(s.skip(1).skip(i - 1) =~= s.skip(i));
    } else {
        assert(s.skip(0) =~= s);
    }
}

proof fn lemma_trim_end_take(s: Seq<char>, j: int)
    requires
        0 <= j <= s.len(),
        forall|k: int| j <= k < s.len() ==> unicode_ws(s[k]),
    ensures
        spec_trim_end(s) == spec_trim_end(s.take(j)),
    decreases s.len() - j,
{
    if j < s.len() {
        assert(unicode_ws(s.last()));
        assert(s.drop_last() =~= s.take(s.len() - 1));
        lemma_trim_end_take(s.take(s.len() - 1), j);
        assert(s.take(s.len() - 1).take(j) =~= s.take(j));
    } else {
        assert(s.take(j) =~= s);
    }
}

/// `str::trim`, built from per-character whitespace tests.
pub fn trim_str(s: &str) -> (r: String)
    ensures
        r@ == spec_trim(s@),
{
    let v = to_chars(s);
    let n = v.len();
    let mut i: usize = 0;
    loop
        invariant_except_break
            n == v@.len(),
            v@ == s@,
            i <= n,
            forall|k: int| 0 <= k < i ==> unicode_ws(s@[k]),
        ensures
            n == v@.len(),
            i <= n,
            forall|k: int| 0 <= k < i ==> unicode_ws(s@[k]),
            i < n ==> !unicode_ws(s@[i as int]),
        decreases n - i,
    {
        if i == n {
            break ;
        }
        if !char_is_ws(v[i]) {
            break ;
        }
        i = i + 1;
    }
    let mut j: usize = n;
    loop
        invariant_except_break
            n == v@.len(),
            v@ == s@,
            i <= j <= n,
            forall|k: int| j <= k < n ==> unicode_ws(s@[k]),
        ensures
            i <= j <= n,
            forall|k: int| j <= k < n ==> unicode_ws(s@[k]),
            j > i ==> !unicode_ws(s@[j - 1]),
        decreases j,
    {
        if j == i {
            break ;
        }
        if !char_is_ws(v[j - 1]) {
            break ;
        }
        j = j - 1;
    }
    proof {
        lemma_trim_start_skip(s@, i as int);
        let m = s@.skip(i as int);
        if i < n {
            assert(!unicode_ws(m[0]));
        }
        assert(spec_trim_start(m) == m);
        assert(forall|k: int| j - i <= k < m.len() ==> unicode_ws(m[k]));
        lemma_trim_end_take(m, j - i);
        if j > i {
            assert(!unicode_ws(s@[j - 1]));
            assert(m.take(j - i).last() == s@[j - 1]);
            assert(spec_trim_end(m.take(j - i)) == m.take(j - i));
        } else {
            assert(m.take(0) =~= Seq::<char>::empty());
            assert(spec_trim_end(m.take(0)) == m.take(0));
        }
        assert(m.take(j - i) =~= s@.subrange(i as int, j as int));
    }
    let part = s.substring_char(i, j);
    part.to_owned()
}

/// `s` with every leading `.` removed, as `str::trim_start_matches('.')`.
pub open spec fn spec_strip_dots(s: Seq<char>) -> Seq<char>
    decreases s.len(),
{
    if s.len() > 0 && s[0] == '.' {
        spec_strip_dots(s.drop_first())
    } else {
        s
    }
}

proof fn lemma_strip_dots_skip(s: Seq<char>, i: int)
    requires
        0 <= i <= s.len(),
        forall|k: int| 0 <= k < i ==> s[k] == '.',
    ensures
        spec_strip_dots(s) == spec_strip_dots(s.skip(i)),
    decreases i,
{
    if i > 0 {
        assert(s[0] == '.');
        assert(s.drop_first() =~= s.skip(1));
        lemma_strip_dots_skip(s.skip(1), i - 1);
        assert(s.skip(1).skip(i - 1) =~= s.skip(i));
    } else {
        assert(s.skip(0) =~= s);
    }
}

/// Remove every leading `.` character.
pub fn strip_leading_dots(s: &str) -> (r: String)
    ensures
        r@ == spec_strip_dots(s@),
{
    let v = to_chars(s);
    let n = v.len();
    let mut i: usize = 0;
    loop
        invariant_except_break
            n == v@.len(),
            v@ == s@,
            i <= n,
            forall|k: int| 0 <= k < i ==> s@[k] == '.',
        ensures
            n == v@.len(),
            i <= n,
            forall|k: int| 0 <= k < i ==> s@[k] == '.',
            i < n ==> s@[i as int] != '.',
        decreases n - i,
    {
        if i == n {
            break ;
        }
        if v[i] != '.' {
            break ;
        }
        i = i + 1;
    }
    proof {
        lemma_strip_dots_skip(s@, i as int);
        let m = s@.skip(i as int);
        assert(spec_strip_dots(m) == m);
        assert(m =~= s@.subrange(i as int, n as int));
    }
    let part = s.substring_char(i, n);
    part.to_owned()
}

/// Index of the last `.` of `s`; meaningful only when one exists.
pub open spec fn last_dot(s: Seq<char>) -> int
    decreases s.len(),
{
    if s.len() == 0 {
        -1
    } else if s.last() == '.' {
        s.len() - 1
    } else {
        last_dot(s.drop_last())
    }
}

pub open spec fn has_dot(s: Seq<char>) -> bool {
    exists|i: int| 0 <= i < s.len() && s[i] == '.'
}

/// The extension of a file name: what follows the last `.`, provided that dot
/// is not the first character (so a purely dotted prefix names no extension).
pub open spec fn spec_extension(name: Seq<char>) -> Option<Seq<char>> {
    if has_dot(name) && last_dot(name) > 0 {
        Some(name.subrange(last_dot(name) + 1, name.len() as int))
    } else {
        None
    }
}

proof fn lemma_last_dot_props(s: Seq<char>)
    ensures
        has_dot(s) ==> {
            &&& 0 <= last_dot(s) < s.len()
            &&& s[last_dot(s)] == '.'
            &&& forall|j: int| last_dot(s) < j < s.len() ==> s[j] != '.'
        },
        !has_dot(s) ==> forall|j: int| 0 <= j < s.len() ==> s[j] != '.',
    decreases s.len(),
{
    if s.len() > 0 && s.last() != '.' {
        lemma_last_dot_props(s.drop_last());
        assert(forall|i: int| 0 <= i < s.len() - 1 ==> s.drop_last()[i] == s[i]);
        if has_dot(s) {
            let w = choose|i: int| 0 <= i < s.len() && s[i] == '.';
            assert(w < s.len() - 1 && s.drop_last()[w] == '.');
            assert(has_dot(s.drop_last()));
        }
    }
}

/// The extension of a file name (see [`spec_extension`]).
pub fn extension_of(name: &str) -> (r: Option<String>)
    ensures
        match r {
            Some(e) => spec_extension(name@) == Some(e@),
            None => spec_extension(name@) is None,
        },
{
    let v = to_chars(name);
    let mut i: usize = v.len();
    while i > 0
        invariant
            i <= v@.len(),
            v@ == name@,
            forall|j: int| i <= j < v@.len() ==> v@[j] != '.',
        decreases i,
    {
        i = i - 1;
        if v[i] == '.' {
            proof {
                assert(has_dot(name@));
                lemma_last_dot_props(name@);
                let l = last_dot(name@);
                if l > i as int {
                    assert(name@[l] != '.');
                    assert(false);
                }
                if l < i as int {
                    assert(name@[i as int] != '.');
                    assert(false);
                }
            }
            if i == 0 {
                return None;
            }
            return Some(name.substring_char(i + 1, v.len()).to_owned());
        }
    }
    proof {
        lemma_last_dot_props(name@);
        if has_dot(name@) {
            let l = last_dot(name@);
            assert(name@[l] == '.');
            assert(name@[l] != '.');
        }
    }
    None
}

/// The directory part of `path` (see [`spec_parent_dir`]).
pub fn parent_dir(path: &str) -> (r: Option<String>)
    ensures
        match r {
            Some(p) => spec_parent_dir(path@) == Some(p@),
            None => spec_parent_dir(path@) is None,
        },
{
    let v = to_chars(path);
    proof {
        lemma_last_sep_props(v@);
    }
    match find_last_sep(&v) {
        Some(i) => {
            if i == 0 {
                Some(path.substring_char(0, 1).to_owned())
            } else {
                Some(path.substring_char(0, i).to_owned())
            }
        },
        None => None,
    }
}

} // verus!
