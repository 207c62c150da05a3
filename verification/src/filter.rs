//! Filter compilation and the per-entry decision functions: raw criteria are
//! normalized into a [`CompiledFilter`] whose `include_file` / `skip_dir`
//! decisions are specified exactly over the lowered views of the inputs.

use vstd::prelude::*;
use crate::text::{
    contains_sub, lower_of, spec_trim, spec_strip_dots, spec_base_name, spec_extension,
    lowercase, trim_str, strip_leading_dots, base_name, extension_of, to_chars, str_eq,
};

verus! {

/// The views of a list of strings.
pub open spec fn views(l: Seq<String>) -> Seq<Seq<char>> {
    l.map_values(|s: String| s@)
}

/// `x` is an element of `l`.
pub open spec fn in_list(l: Seq<Seq<char>>, x: Seq<char>) -> bool {
    exists|i: int| 0 <= i < l.len() && l[i] == x
}

/// Some non-empty pattern of `pats` occurs in `hay`.
pub open spec fn any_contained(hay: Seq<char>, pats: Seq<Seq<char>>) -> bool {
    exists|i: int| 0 <= i < pats.len() && pats[i].len() > 0 && contains_sub(hay, pats[i])
}

fn list_has(l: &Vec<String>, x: &str) -> (r: bool)
    ensures
        r == in_list(views(l@), x@),
{
    let mut i: usize = 0;
    while i < l.len()
        invariant
            i <= l@.len(),
            forall|k: int| 0 <= k < i ==> views(l@)[k] != x@,
        decreases l@.len() - i,
    {
        if str_eq(l[i].as_str(), x) {
            proof {
                assert(views(l@)[i as int] == x@);
            }
            return true;
        }
        i = i + 1;
    }
    false
}

fn contains_any(hay: &Vec<char>, pats: &Vec<String>) -> (r: bool)
    ensures
        r == any_contained(hay@, views(pats@)),
{
    let mut i: usize = 0;
    while i < pats.len()
        invariant
            i <= pats@.len(),
            forall|k: int|
                0 <= k < i ==> !(views(pats@)[k].len() > 0 && contains_sub(
                    hay@,
                    views(pats@)[k],
                )),
        decreases pats@.len() - i,
    {
        let p = to_chars(pats[i].as_str());
        if p.len() > 0 && crate::text::contains_chars(hay, &p) {
            proof {
                assert(views(pats@)[i as int].len() > 0 && contains_sub(
                    hay@,
                    views(pats@)[i as int],
                ));
            }
            return true;
        }
        i = i + 1;
    }
    false
}

/// Whether `regex::Regex::new` accepts `pattern`: a function of the pattern
/// alone.
pub uninterp spec fn regex_valid(pattern: Seq<char>) -> bool;

/// Whether the regular expression compiled from `pattern` matches somewhere in
/// `text`: a function of pattern and text alone.
pub uninterp spec fn regex_match(pattern: Seq<char>, text: Seq<char>) -> bool;

/// A compiled regular expression together with the pattern it was compiled
/// from. Both fields are private and [`regex_compile`] is the only
/// constructor, so `regex` is always the compilation of `pattern`.
pub struct CompiledRegex {
    pattern: String,
    regex: regex::Regex,
}

impl CompiledRegex {
    /// The pattern this regular expression was compiled from.
    pub closed spec fn spec_pattern(&self) -> Seq<char> {
        self.pattern@
    }
}

#[verifier::external_type_specification]
#[verifier::external_body]
pub struct ExRegex(regex::Regex);

/// Relies on regex::Regex::new: whether a pattern compiles depends on the
/// pattern alone, and the compiled value is paired with that same pattern.
#[verifier::external_body]
fn regex_compile(pattern: &str) -> (r: Option<CompiledRegex>)
    ensures
        r is Some <==> regex_valid(pattern@),
        r is Some ==> r->0.spec_pattern() == pattern@,
{
    match regex::Regex::new(pattern) {
        Ok(re) => Some(
            CompiledRegex { pattern: pattern.to_owned(), regex: re },
        ),
        Err(_) => None,
    }
}

/// Relies on regex::Regex::is_match: the result depends on the compiled
/// pattern and the haystack alone. Sound because `regex` is always the
/// compilation of `pattern` (see [`CompiledRegex`]).
#[verifier::external_body]
fn regex_is_match(m: &CompiledRegex, text: &str) -> (r: bool)
    ensures
        r == regex_match(m.spec_pattern(), text@),
{
    m.regex.is_match(text)
}

/// The optional compiled regex matches `text` (`None` matches nothing).
pub open spec fn opt_regex_matches(o: &Option<CompiledRegex>, text: Seq<char>) -> bool {
    match o {
        Some(cr) => regex_match(cr.spec_pattern(), text),
        None => false,
    }
}

fn opt_regex_is_match(o: &Option<CompiledRegex>, text: &str) -> (r: bool)
    ensures
        r == opt_regex_matches(o, text@),
{
    match o {
        Some(cr) => regex_is_match(cr, text),
        None => false,
    }
}

/// Raw filter criteria, as supplied by a caller.
pub struct ScanFilters {
    pub include_extensions: Vec<String>,
    pub exclude_extensions: Vec<String>,
    pub include_names: Vec<String>,
    pub exclude_names: Vec<String>,
    pub min_size_bytes: Option<u64>,
    pub max_size_bytes: Option<u64>,
    pub include_regex: Option<String>,
    pub exclude_regex: Option<String>,
    pub include_paths: Vec<String>,
    pub exclude_paths: Vec<String>,
}

impl ScanFilters {
    /// The empty criteria: everything is accepted.
    pub fn none() -> (r: ScanFilters)
        ensures
            r.include_extensions@.len() == 0,
            r.exclude_extensions@.len() == 0,
            r.include_names@.len() == 0,
            r.exclude_names@.len() == 0,
            r.min_size_bytes is None,
            r.max_size_bytes is None,
            r.include_regex is None,
            r.exclude_regex is None,
            r.include_paths@.len() == 0,
            r.exclude_paths@.len() == 0,
    {
        ScanFilters {
            include_extensions: Vec::new(),
            exclude_extensions: Vec::new(),
            include_names: Vec::new(),
            exclude_names: Vec::new(),
            min_size_bytes: None,
            max_size_bytes: None,
            include_regex: None,
            exclude_regex: None,
            include_paths: Vec::new(),
            exclude_paths: Vec::new(),
        }
    }
}

impl Default for ScanFilters {
    fn default() -> (r: ScanFilters)
        ensures
            r.include_extensions@.len() == 0,
            r.exclude_extensions@.len() == 0,
            r.include_names@.len() == 0,
            r.exclude_names@.len() == 0,
            r.min_size_bytes is None,
            r.max_size_bytes is None,
            r.include_regex is None,
            r.exclude_regex is None,
            r.include_paths@.len() == 0,
            r.exclude_paths@.len() == 0,
    {
        ScanFilters::none()
    }
}

/// Why filter compilation failed.
#[derive(Clone, Copy, Debug, PartialEq, Eq, Structural)]
pub enum FilterError {
    /// A regular expression did not compile.
    InvalidPattern,
    /// The minimum size bound exceeds the maximum.
    InvalidRange,
}

/// Precomputed applicability flags: which input projections the criteria need.
pub struct FilterFlags {
    pub has_includes: bool,
    pub has_file_excludes: bool,
    pub has_dir_excludes: bool,
    pub needs_path: bool,
    pub needs_name: bool,
    pub needs_extension: bool,
}

/// Compiled criteria: lists are trimmed, lower-cased and free of empties;
/// extensions additionally have leading dots stripped.
pub struct CompiledFilter {
    pub include_extensions: Vec<String>,
    pub exclude_extensions: Vec<String>,
    pub include_names: Vec<String>,
    pub exclude_names: Vec<String>,
    pub include_paths: Vec<String>,
    pub exclude_paths: Vec<String>,
    pub min_size_bytes: Option<u64>,
    pub max_size_bytes: Option<u64>,
    pub include_regex: Option<CompiledRegex>,
    pub exclude_regex: Option<CompiledRegex>,
    pub flags: FilterFlags,
}

/// A name or path token after normalization: trimmed, then lower-cased.
pub open spec fn clean_token(v: Seq<char>) -> Seq<char> {
    lower_of(spec_trim(v))
}

/// An extension token after normalization: trimmed, leading dots stripped,
/// then lower-cased.
pub open spec fn clean_ext_token(v: Seq<char>) -> Seq<char> {
    lower_of(spec_strip_dots(spec_trim(v)))
}

/// `out` is `inp` with each element cleaned by `clean_token` and the empty
/// results dropped (as a set: every output comes from an input, and every
/// input with a non-empty cleaning is present).
pub open spec fn normalized(inp: Seq<Seq<char>>, out: Seq<Seq<char>>) -> bool {
    &&& forall|i: int|
        0 <= i < out.len() ==> out[i].len() > 0 && (exists|j: int|
            0 <= j < inp.len() && out[i] == clean_token(inp[j]))
    &&& forall|j: int|
        0 <= j < inp.len() && clean_token(inp[j]).len() > 0 ==> in_list(out, clean_token(inp[j]))
}

/// As [`normalized`], with `clean_ext_token` as the cleaner.
pub open spec fn normalized_ext(inp: Seq<Seq<char>>, out: Seq<Seq<char>>) -> bool {
    &&& forall|i: int|
        0 <= i < out.len() ==> out[i].len() > 0 && (exists|j: int|
            0 <= j < inp.len() && out[i] == clean_ext_token(inp[j]))
    &&& forall|j: int|
        0 <= j < inp.len() && clean_ext_token(inp[j]).len() > 0 ==> in_list(
            out,
            clean_ext_token(inp[j]),
        )
}

/// Each token cleaned in order by [`clean_token`], empties dropped,
/// duplicates kept.
pub open spec fn clean_list(inp: Seq<Seq<char>>) -> Seq<Seq<char>>
    decreases inp.len(),
{
    if inp.len() == 0 {
        Seq::empty()
    } else {
        let pre = clean_list(inp.drop_last());
        let c = clean_token(inp.last());
        if c.len() > 0 {
            pre.push(c)
        } else {
            pre
        }
    }
}

/// Each token cleaned in order by [`clean_ext_token`], empties and repeats
/// dropped (the first occurrence is kept).
pub open spec fn clean_ext_list(inp: Seq<Seq<char>>) -> Seq<Seq<char>>
    decreases inp.len(),
{
    if inp.len() == 0 {
        Seq::empty()
    } else {
        let pre = clean_ext_list(inp.drop_last());
        let c = clean_ext_token(inp.last());
        if c.len() > 0 && !pre.contains(c) {
            pre.push(c)
        } else {
            pre
        }
    }
}

/// Normalize name/path substrings: trim, lower-case, drop empties; order and
/// duplicates are kept as given.
pub fn normalize_list(values: &Vec<String>) -> (out: Vec<String>)
    ensures
        normalized(views(values@), views(out@)),
        views(out@) == clean_list(views(values@)),
{
    let mut out: Vec<String> = Vec::new();
    let mut i: usize = 0;
    while i < values.len()
        invariant
            i <= values@.len(),
            forall|k: int|
                0 <= k < out@.len() ==> views(out@)[k].len() > 0 && (exists|j: int|
                    0 <= j < i && views(out@)[k] == clean_token(views(values@)[j])),
            forall|j: int|
                0 <= j < i && clean_token(views(values@)[j]).len() > 0 ==> in_list(
                    views(out@),
                    clean_token(views(values@)[j]),
                ),
            views(out@) == clean_list(views(values@).take(i as int)),
        decreases values@.len() - i,
    {
        let trimmed = trim_str(values[i].as_str());
        let cleaned = lowercase(trimmed.as_str());
        proof {
            assert(cleaned@ == clean_token(views(values@)[i as int]));
            assert(views(values@).take(i + 1).drop_last() =~= views(values@).take(i as int));
            assert(views(values@).take(i + 1).last() == views(values@)[i as int]);
        }
        if cleaned.as_str().unicode_len() > 0 {
            let ghost old_out = out@;
            out.push(cleaned);
            proof {
                assert(views(out@) =~= views(old_out).push(cleaned@));
                assert forall|j: int|
                    0 <= j < i + 1 && clean_token(views(values@)[j]).len() > 0 implies in_list(
                    views(out@),
                    clean_token(views(values@)[j]),
                ) by {
                    if j < i {
                        let k = choose|k: int|
                            0 <= k < views(old_out).len() && views(old_out)[k] == clean_token(
                                views(values@)[j],
                            );
                        assert(views(out@)[k] == clean_token(views(values@)[j]));
                    } else {
                        assert(views(out@)[views(old_out).len() as int] == cleaned@);
                    }
                }
            }
        }
        i = i + 1;
    }
    proof {
        assert(views(values@).take(values@.len() as int) =~= views(values@));
    }
    out
}

/// Normalize extensions: trim, strip leading dots, lower-case, drop empties
/// and repeats (the first occurrence of an extension is kept).
pub fn normalize_extensions(values: &Vec<String>) -> (out: Vec<String>)
    ensures
        normalized_ext(views(values@), views(out@)),
        views(out@) == clean_ext_list(views(values@)),
        views(out@).no_duplicates(),
{
    let mut out: Vec<String> = Vec::new();
    let mut i: usize = 0;
    while i < values.len()
        invariant
            i <= values@.len(),
            forall|k: int|
                0 <= k < out@.len() ==> views(out@)[k].len() > 0 && (exists|j: int|
                    0 <= j < i && views(out@)[k] == clean_ext_token(views(values@)[j])),
            forall|j: int|
                0 <= j < i && clean_ext_token(views(values@)[j]).len() > 0 ==> in_list(
                    views(out@),
                    clean_ext_token(views(values@)[j]),
                ),
            views(out@) == clean_ext_list(views(values@).take(i as int)),
            views(out@).no_duplicates(),
        decreases values@.len() - i,
    {
        let trimmed = trim_str(values[i].as_str());
        let stripped = strip_leading_dots(trimmed.as_str());
        let cleaned = lowercase(stripped.as_str());
        proof {
            assert(cleaned@ == clean_ext_token(views(values@)[i as int]));
            assert(views(values@).take(i + 1).drop_last() =~= views(values@).take(i as int));
            assert(views(values@).take(i + 1).last() == views(values@)[i as int]);
        }
        if cleaned.as_str().unicode_len() > 0 && !list_has(&out, cleaned.as_str()) {
            let ghost old_out = out@;
            out.push(cleaned);
            proof {
                assert(views(out@) =~= views(old_out).push(cleaned@));
                assert forall|j: int|
                    0 <= j < i + 1 && clean_ext_token(views(values@)[j]).len() > 0 implies in_list(
                    views(out@),
                    clean_ext_token(views(values@)[j]),
                ) by {
                    if j < i {
                        let k = choose|k: int|
                            0 <= k < views(old_out).len() && views(old_out)[k] == clean_ext_token(
                                views(values@)[j],
                            );
                        assert(views(out@)[k] == clean_ext_token(views(values@)[j]));
                    } else {
                        assert(views(out@)[views(old_out).len() as int] == cleaned@);
                    }
                }
                assert(!views(old_out).contains(cleaned@));
                assert forall|a: int, b: int|
                    0 <= a < b < views(out@).len() implies views(out@)[a] != views(out@)[b] by {
                    if b < views(old_out).len() {
                        assert(views(out@)[a] == views(old_out)[a]);
                        assert(views(out@)[b] == views(old_out)[b]);
                    } else {
                        assert(views(out@)[a] == views(old_out)[a]);
                        assert(views(out@)[b] == cleaned@);
                    }
                }
            }
        } else {
            proof {
                if cleaned@.len() > 0 {
                    assert(in_list(views(out@), cleaned@));
                    assert(views(out@).contains(cleaned@));
                }
            }
        }
        i = i + 1;
    }
    proof {
        assert(views(values@).take(values@.len() as int) =~= views(values@));
    }
    out
}

impl CompiledFilter {
    /// The flags agree with the criteria they summarize.
    pub open spec fn wf(&self) -> bool {
        &&& self.flags.has_includes == (self.include_extensions@.len() > 0
            || self.include_names@.len() > 0 || self.include_paths@.len() > 0
            || self.include_regex is Some)
        &&& self.flags.has_dir_excludes == (self.exclude_paths@.len() > 0
            || self.exclude_names@.len() > 0 || self.exclude_regex is Some)
        &&& self.flags.has_file_excludes == (self.flags.has_dir_excludes
            || self.exclude_extensions@.len() > 0)
        &&& self.flags.needs_path == (self.exclude_paths@.len() > 0 || self.include_paths@.len()
            > 0 || self.include_regex is Some || self.exclude_regex is Some)
        &&& self.flags.needs_name == (self.exclude_names@.len() > 0 || self.include_names@.len()
            > 0)
        &&& self.flags.needs_extension == (self.include_extensions@.len() > 0
            || self.exclude_extensions@.len() > 0)
        &&& (self.min_size_bytes is Some && self.max_size_bytes is Some
            ==> self.min_size_bytes->0 <= self.max_size_bytes->0)
    }

    /// `size` lies within the configured bounds.
    pub open spec fn spec_size_ok(&self, size: u64) -> bool {
        &&& (self.min_size_bytes is Some ==> size >= self.min_size_bytes->0)
        &&& (self.max_size_bytes is Some ==> size <= self.max_size_bytes->0)
    }

    /// The lowered extension of the file named by `path`, if any.
    pub open spec fn spec_lext(path: Seq<char>) -> Option<Seq<char>> {
        match spec_extension(spec_base_name(path)) {
            Some(e) => Some(lower_of(e)),
            None => None,
        }
    }

    /// Some exclude criterion matches the file at `path`.
    pub open spec fn spec_matches_exclude(&self, path: Seq<char>) -> bool {
        let lpath = lower_of(path);
        let lname = lower_of(spec_base_name(path));
        ||| opt_regex_matches(&self.exclude_regex, lpath)
        ||| any_contained(lpath, views(self.exclude_paths@))
        ||| any_contained(lname, views(self.exclude_names@))
        ||| (Self::spec_lext(path) is Some && in_list(
            views(self.exclude_extensions@),
            Self::spec_lext(path)->0,
        ))
    }

    /// Some include criterion matches the file at `path`.
    pub open spec fn spec_matches_include(&self, path: Seq<char>) -> bool {
        let lpath = lower_of(path);
        let lname = lower_of(spec_base_name(path));
        ||| opt_regex_matches(&self.include_regex, lpath)
        ||| any_contained(lpath, views(self.include_paths@))
        ||| any_contained(lname, views(self.include_names@))
        ||| (Self::spec_lext(path) is Some && in_list(
            views(self.include_extensions@),
            Self::spec_lext(path)->0,
        ))
    }

    /// Whether any include criterion is configured at all.
    pub open spec fn spec_has_includes(&self) -> bool {
        self.include_extensions@.len() > 0 || self.include_names@.len() > 0
            || self.include_paths@.len() > 0 || self.include_regex is Some
    }

    /// The file decision: within size bounds, not excluded, and — once any
    /// include criterion is configured — matched by at least one of them.
    pub open spec fn spec_include_file(&self, path: Seq<char>, size: u64) -> bool {
        &&& self.spec_size_ok(size)
        &&& !self.spec_matches_exclude(path)
        &&& (self.spec_has_includes() ==> self.spec_matches_include(path))
    }

    /// The directory decision: the root is never skipped; any other directory
    /// is skipped when a directory-applicable exclude criterion matches
    /// (extension excludes do not apply to directories).
    pub open spec fn spec_skip_dir(&self, root: Seq<char>, path: Seq<char>) -> bool {
        let lpath = lower_of(path);
        let lname = lower_of(spec_base_name(path));
        &&& path != root
        &&& {
            ||| opt_regex_matches(&self.exclude_regex, lpath)
            ||| any_contained(lpath, views(self.exclude_paths@))
            ||| any_contained(lname, views(self.exclude_names@))
        }
    }

    /// Decide whether the file at `path` of size `size_bytes` is counted.
    pub fn include_file(&self, path: &str, size_bytes: u64) -> (r: bool)
        requires
            self.wf(),
        ensures
            r == self.spec_include_file(path@, size_bytes),
    {
        if let Some(min) = self.min_size_bytes {
            if size_bytes < min {
                return false;
            }
        }
        if let Some(max) = self.max_size_bytes {
            if size_bytes > max {
                return false;
            }
        }
        let name = base_name(path);
        let lpath = if self.flags.needs_path {
            Some(lowercase(path))
        } else {
            None
        };
        let lname = if self.flags.needs_name {
            Some(lowercase(name.as_str()))
        } else {
            None
        };
        let lext = if self.flags.needs_extension {
            match extension_of(name.as_str()) {
                Some(e) => Some(lowercase(e.as_str())),
                None => None,
            }
        } else {
            None
        };
        if self.flags.has_file_excludes {
            if let Some(lp) = &lpath {
                if opt_regex_is_match(&self.exclude_regex, lp.as_str()) {
                    return false;
                }
                let lpc = to_chars(lp.as_str());
                if contains_any(&lpc, &self.exclude_paths) {
                    return false;
                }
            }
            if let Some(ln) = &lname {
                let lnc = to_chars(ln.as_str());
                if contains_any(&lnc, &self.exclude_names) {
                    return false;
                }
            }
            if let Some(le) = &lext {
                if list_has(&self.exclude_extensions, le.as_str()) {
                    return false;
                }
            }
        }
        proof {
            assert(!self.spec_matches_exclude(path@));
        }
        if !self.flags.has_includes {
            return true;
        }
        if let Some(lp) = &lpath {
            if opt_regex_is_match(&self.include_regex, lp.as_str()) {
                return true;
            }
            let lpc = to_chars(lp.as_str());
            if contains_any(&lpc, &self.include_paths) {
                return true;
            }
        }
        if let Some(ln) = &lname {
            let lnc = to_chars(ln.as_str());
            if contains_any(&lnc, &self.include_names) {
                return true;
            }
        }
        if let Some(le) = &lext {
            let r = list_has(&self.include_extensions, le.as_str());
            return r;
        }
        proof {
            assert(!self.spec_matches_include(path@));
        }
        false
    }

    /// Decide whether the directory at `path` is pruned from the traversal.
    pub fn skip_dir(&self, root: &str, path: &str) -> (r: bool)
        requires
            self.wf(),
        ensures
            r == self.spec_skip_dir(root@, path@),
    {
        if str_eq(path, root) {
            return false;
        }
        if !self.flags.has_dir_excludes {
            return false;
        }
        let lpath = if self.flags.needs_path {
            Some(lowercase(path))
        } else {
            None
        };
        if let Some(lp) = &lpath {
            if opt_regex_is_match(&self.exclude_regex, lp.as_str()) {
                return true;
            }
            let lpc = to_chars(lp.as_str());
            if contains_any(&lpc, &self.exclude_paths) {
                return true;
            }
        }
        if self.flags.needs_name {
            let name = base_name(path);
            let lname = lowercase(name.as_str());
            let lnc = to_chars(lname.as_str());
            let r = contains_any(&lnc, &self.exclude_names);
            return r;
        }
        false
    }
}

/// Exclusion takes precedence: a file that matches any exclude criterion is
/// rejected, whether or not an include criterion also matches it.
pub proof fn lemma_exclude_wins(f: &CompiledFilter, path: Seq<char>, size: u64)
    requires
        f.spec_matches_exclude(path),
    ensures
        !f.spec_include_file(path, size),
{
}

impl ScanFilters {
    /// Compile raw criteria. Fails with `InvalidRange` when the minimum size
    /// bound exceeds the maximum, and otherwise with `InvalidPattern` when a
    /// configured regular expression does not compile; succeeds exactly
    /// otherwise, with every list normalized and the flags consistent.
    pub fn compile(&self) -> (r: Result<CompiledFilter, FilterError>)
        ensures
            ({
                let range_bad = self.min_size_bytes is Some && self.max_size_bytes is Some
                    && self.min_size_bytes->0 > self.max_size_bytes->0;
                let inc_bad = self.include_regex is Some && !regex_valid(self.include_regex->0@);
                let exc_bad = self.exclude_regex is Some && !regex_valid(self.exclude_regex->0@);
                &&& (r is Err <==> range_bad || inc_bad || exc_bad)
                &&& (range_bad ==> r == Result::<CompiledFilter, FilterError>::Err(
                    FilterError::InvalidRange,
                ))
                &&& (!range_bad && (inc_bad || exc_bad) ==> r == Result::<
                    CompiledFilter,
                    FilterError,
                >::Err(FilterError::InvalidPattern))
                &&& (r is Ok ==> {
                    let f = r->Ok_0;
                    &&& f.wf()
                    &&& f.min_size_bytes == self.min_size_bytes
                    &&& f.max_size_bytes == self.max_size_bytes
                    &&& normalized_ext(views(self.include_extensions@), views(f.include_extensions@))
                    &&& normalized_ext(views(self.exclude_extensions@), views(f.exclude_extensions@))
                    &&& normalized(views(self.include_names@), views(f.include_names@))
                    &&& normalized(views(self.exclude_names@), views(f.exclude_names@))
                    &&& normalized(views(self.include_paths@), views(f.include_paths@))
                    &&& normalized(views(self.exclude_paths@), views(f.exclude_paths@))
                    &&& (f.include_regex is Some <==> self.include_regex is Some)
                    &&& (f.include_regex is Some ==> f.include_regex->0.spec_pattern()
                        == self.include_regex->0@)
                    &&& (f.exclude_regex is Some <==> self.exclude_regex is Some)
                    &&& (f.exclude_regex is Some ==> f.exclude_regex->0.spec_pattern()
                        == self.exclude_regex->0@)
                })
            }),
    {
        if let (Some(min), Some(max)) = (self.min_size_bytes, self.max_size_bytes) {
            if min > max {
                return Err(FilterError::InvalidRange);
            }
        }
        let include_regex = match &self.include_regex {
            Some(pattern) => {
                match regex_compile(pattern.as_str()) {
                    Some(cr) => Some(cr),
                    None => {
                        return Err(FilterError::InvalidPattern);
                    },
                }
            },
            None => None,
        };
        let exclude_regex = match &self.exclude_regex {
            Some(pattern) => {
                match regex_compile(pattern.as_str()) {
                    Some(cr) => Some(cr),
                    None => {
                        return Err(FilterError::InvalidPattern);
                    },
                }
            },
            None => None,
        };
        let include_extensions = normalize_extensions(&self.include_extensions);
        let exclude_extensions = normalize_extensions(&self.exclude_extensions);
        let include_names = normalize_list(&self.include_names);
        let exclude_names = normalize_list(&self.exclude_names);
        let include_paths = normalize_list(&self.include_paths);
        let exclude_paths = normalize_list(&self.exclude_paths);
        let has_includes = include_extensions.len() > 0 || include_names.len() > 0
            || include_paths.len() > 0 || include_regex.is_some();
        let has_dir_excludes = exclude_paths.len() > 0 || exclude_names.len() > 0
            || exclude_regex.is_some();
        let has_file_excludes = has_dir_excludes || exclude_extensions.len() > 0;
        let needs_path = exclude_paths.len() > 0 || include_paths.len() > 0
            || include_regex.is_some() || exclude_regex.is_some();
        let needs_name = exclude_names.len() > 0 || include_names.len() > 0;
        let needs_extension = include_extensions.len() > 0 || exclude_extensions.len() > 0;
        Ok(
            CompiledFilter {
                include_extensions,
                exclude_extensions,
                include_names,
                exclude_names,
                include_paths,
                exclude_paths,
                min_size_bytes: self.min_size_bytes,
                max_size_bytes: self.max_size_bytes,
                include_regex,
                exclude_regex,
                flags: FilterFlags {
                    has_includes,
                    has_file_excludes,
                    has_dir_excludes,
                    needs_path,
                    needs_name,
                    needs_extension,
                },
            },
        )
    }
}

} // verus!
