//! Filename eligibility: which directory entries are run.
//!
//! A name is dropped when it carries one of the conventional backup or
//! package-manager suffixes; under the namespace option it must additionally
//! belong to the LANANA-assigned namespace, the LSB reserved namespace or the
//! Debian cron script namespace, and must not carry a package-state suffix.
//! A custom regular expression, when given, must match as well; that one
//! match is the regex engine's and is taken on trust.

use vstd::prelude::*;

use crate::Opt;

verus! {

/// Whether the regular expression engine accepts `pattern` as a valid
/// expression. Validity depends on the pattern alone.
pub uninterp spec fn regex_valid(pattern: Seq<char>) -> bool;

/// Whether the regular expression `pattern` matches somewhere in `text`.
/// The verdict depends on the pattern and the text alone.
pub uninterp spec fn regex_match(pattern: Seq<char>, text: Seq<char>) -> bool;

/// Relies on regex::Regex::new and regex::Regex::is_match: whether a pattern
/// compiles, and whether a compiled pattern matches a text, are functions of
/// the pattern and the text alone.
#[verifier::external_body]
fn regex_check(pattern: &str, text: &str) -> (r: Option<bool>)
    ensures
        r == (if regex_valid(pattern@) {
            Some(regex_match(pattern@, text@))
        } else {
            None::<bool>
        }),
{
    match regex::Regex::new(pattern) {
        Ok(re) => Some(re.is_match(text)),
        Err(_) => None,
    }
}

/// A lower-case letter or a digit: the character class of the LANANA
/// namespace, and of the tail of an LSB reserved name.
pub open spec fn is_lower_alnum(c: char) -> bool {
    ('a' <= c && c <= 'z') || ('0' <= c && c <= '9')
}

/// A character allowed inside a segment of an LSB reserved name.
pub open spec fn is_reserved_seg_char(c: char) -> bool {
    is_lower_alnum(c) || c == '_' || c == '.'
}

/// A character allowed in a Debian cron script name.
pub open spec fn is_cron_char(c: char) -> bool {
    is_lower_alnum(c) || ('A' <= c && c <= 'Z') || c == '_' || c == '-'
}

/// The LANANA-assigned LSB hierarchical namespace: one or more lower-case
/// letters and digits.
pub open spec fn lanana_matches(s: Seq<char>) -> bool {
    s.len() > 0 && (forall|i: int| 0 <= i < s.len() ==> is_lower_alnum(#[trigger] s[i]))
}

/// The Debian cron script namespace: one or more letters, digits,
/// underscores and hyphens.
pub open spec fn cron_matches(s: Seq<char>) -> bool {
    s.len() > 0 && (forall|i: int| 0 <= i < s.len() ==> is_cron_char(#[trigger] s[i]))
}

/// A valid hyphen position for an LSB reserved name: everything after the
/// hyphen at `i` is the non-empty lower-alphanumeric tail, and everything
/// before it splits at hyphens into non-empty segments of segment characters.
pub open spec fn reserved_split_at(t: Seq<char>, i: int) -> bool {
    &&& 1 <= i && i + 1 < t.len()
    &&& t[i] == '-'
    &&& t[0] != '-'
    &&& forall|j: int| i < j < t.len() ==> is_lower_alnum(#[trigger] t[j])
    &&& forall|j: int| 0 <= j < i ==> (is_reserved_seg_char(#[trigger] t[j]) || t[j] == '-')
    &&& forall|j: int| 0 <= j < i ==> !(#[trigger] t[j] == '-' && t[j + 1] == '-')
}

/// An LSB reserved name without its optional leading underscore: one or more
/// hyphen-terminated segments of letters, digits, underscores and dots,
/// followed by a non-empty tail of lower-case letters and digits.
pub open spec fn reserved_body_matches(t: Seq<char>) -> bool {
    exists|i: int| reserved_split_at(t, i)
}

/// The LANANA-assigned LSB reserved namespace, with its optional leading
/// underscore.
pub open spec fn reserved_matches(s: Seq<char>) -> bool {
    reserved_body_matches(s) || (s.len() > 0 && s[0] == '_' && reserved_body_matches(s.skip(1)))
}

/// The namespaces accepted under the namespace option.
pub open spec fn lsb_namespace_matches(s: Seq<char>) -> bool {
    lanana_matches(s) || reserved_matches(s) || cron_matches(s)
}

/// The conventional backup and editor suffixes that always disqualify a name.
pub open spec fn std_suffix_ignored(s: Seq<char>) -> bool {
    ||| "~"@.is_suffix_of(s)
    ||| ","@.is_suffix_of(s)
    ||| ".disabled"@.is_suffix_of(s)
    ||| ".cfsaved"@.is_suffix_of(s)
    ||| ".rpmsave"@.is_suffix_of(s)
    ||| ".rpmorig"@.is_suffix_of(s)
    ||| ".rpmnew"@.is_suffix_of(s)
    ||| ".swp"@.is_suffix_of(s)
    ||| ",v"@.is_suffix_of(s)
}

/// The package-state suffixes that disqualify a name under the namespace
/// option.
pub open spec fn lsb_suffix_ignored(s: Seq<char>) -> bool {
    ||| ".dpkg-old"@.is_suffix_of(s)
    ||| ".dpkg-dist"@.is_suffix_of(s)
    ||| ".dpkg-new"@.is_suffix_of(s)
    ||| ".dpkg-tmp"@.is_suffix_of(s)
}

/// The custom pattern's view, when one is configured.
pub open spec fn regex_of(opt: Opt) -> Option<Seq<char>> {
    match opt.regex {
        Some(p) => Some(p@),
        None => None,
    }
}

/// Whether a file named `name` is run: no disqualifying suffix, membership in
/// the namespaces when the namespace option asks for it, and a verdict from
/// the custom expression when one is given. A custom expression the engine
/// rejects accepts no name.
pub open spec fn filter_spec(lsbsysinit: bool, rx: Option<Seq<char>>, name: Seq<char>) -> bool {
    if std_suffix_ignored(name) {
        false
    } else if lsbsysinit && (lsb_suffix_ignored(name) || !lsb_namespace_matches(name)) {
        false
    } else {
        match rx {
            None => true,
            Some(p) => regex_valid(p) && regex_match(p, name),
        }
    }
}

/// The characters of `s`, indexable.
fn chars_of(s: &str) -> (v: Vec<char>)
    ensures
        v@ == s@,
{
    let n = s.unicode_len();
    let mut v: Vec<char> = Vec::new();
    let mut i: usize = 0;
    while i < n
        invariant
            i <= n,
            n == s@.len(),
            v@ == s@.take(i as int),
        decreases n - i,
    {
        v.push(s.get_char(i));
        proof {
            assert(v@ =~= s@.take(i + 1));
        }
        i = i + 1;
    }
    proof {
        assert(v@ =~= s@);
    }
    v
}

/// Whether `suffix` ends `v`.
fn ends_with_chars(v: &Vec<char>, suffix: &str) -> (b: bool)
    ensures
        b == suffix@.is_suffix_of(v@),
{
    let m = suffix.unicode_len();
    let n = v.len();
    if m > n {
        return false;
    }
    let off = n - m;
    let mut i: usize = 0;
    while i < m
        invariant
            i <= m,
            m <= n,
            off == n - m,
            n == v@.len(),
            m == suffix@.len(),
            forall|j: int| 0 <= j < i ==> v@[off + j] == suffix@[j],
        decreases m - i,
    {
        if v[off + i] != suffix.get_char(i) {
            proof {
                assert(v@.subrange(off as int, n as int)[i as int] != suffix@[i as int]);
            }
            return false;
        }
        i = i + 1;
    }
    proof {
        assert(suffix@ =~= v@.subrange(off as int, n as int));
    }
    true
}

/// Whether `v` ends in one of the suffixes that always disqualify a name.
fn has_std_ignored_suffix(v: &Vec<char>) -> (b: bool)
    ensures
        b == std_suffix_ignored(v@),
{
    ends_with_chars(v, "~") || ends_with_chars(v, ",") || ends_with_chars(v, ".disabled")
        || ends_with_chars(v, ".cfsaved") || ends_with_chars(v, ".rpmsave") || ends_with_chars(
        v,
        ".rpmorig",
    ) || ends_with_chars(v, ".rpmnew") || ends_with_chars(v, ".swp") || ends_with_chars(v, ",v")
}

/// Whether `v` ends in one of the package-state suffixes.
fn has_lsb_ignored_suffix(v: &Vec<char>) -> (b: bool)
    ensures
        b == lsb_suffix_ignored(v@),
{
    ends_with_chars(v, ".dpkg-old") || ends_with_chars(v, ".dpkg-dist") || ends_with_chars(
        v,
        ".dpkg-new",
    ) || ends_with_chars(v, ".dpkg-tmp")
}

/// Whether every character of `v` in `[from, to)` is a lower-case letter or
/// digit.
fn all_lower_alnum(v: &Vec<char>, from: usize, to: usize) -> (b: bool)
    requires
        from <= to <= v@.len(),
    ensures
        b == (forall|j: int| from <= j < to ==> is_lower_alnum(#[trigger] v@[j])),
{
    let mut i: usize = from;
    while i < to
        invariant
            from <= i <= to <= v@.len(),
            forall|j: int| from <= j < i ==> is_lower_alnum(#[trigger] v@[j]),
        decreases to - i,
    {
        let c = v[i];
        if !(('a' <= c && c <= 'z') || ('0' <= c && c <= '9')) {
            return false;
        }
        i = i + 1;
    }
    true
}

/// Whether `v` is a LANANA-assigned hierarchical name.
fn lanana_accepts(v: &Vec<char>) -> (b: bool)
    ensures
        b == lanana_matches(v@),
{
    v.len() > 0 && all_lower_alnum(v, 0, v.len())
}

/// Whether `v` is a Debian cron script name.
fn cron_accepts(v: &Vec<char>) -> (b: bool)
    ensures
        b == cron_matches(v@),
{
    if v.len() == 0 {
        return false;
    }
    let n = v.len();
    let mut i: usize = 0;
    while i < n
        invariant
            i <= n,
            n == v@.len(),
            forall|j: int| 0 <= j < i ==> is_cron_char(#[trigger] v@[j]),
        decreases n - i,
    {
        let c = v[i];
        if !(('a' <= c && c <= 'z') || ('0' <= c && c <= '9') || ('A' <= c && c <= 'Z') || c == '_'
            || c == '-') {
            return false;
        }
        i = i + 1;
    }
    true
}

/// Whether `v@.skip(from as int)` is an LSB reserved name without its
/// optional leading underscore.
#[verifier::loop_isolation(false)]
fn reserved_body_accepts(v: &Vec<char>, from: usize) -> (b: bool)
    requires
        from <= v@.len(),
    ensures
        b == reserved_body_matches(v@.skip(from as int)),
{
    let ghost t = v@.skip(from as int);
    let n = v.len();
    // find the last hyphen at or after `from`
    let mut k: usize = n;
    while k > from && v[k - 1] != '-'
        invariant
            from <= k <= n,
            n == v@.len(),
            forall|j: int| k <= j < n ==> v@[j] != '-',
        decreases k,
    {
        k = k - 1;
    }
    if k == from {
        // no hyphen at all
        proof {
            assert forall|i: int| !reserved_split_at(t, i) by {
                if 1 <= i && i + 1 < t.len() {
                    assert(t[i] == v@[from + i]);
                }
            }
        }
        return false;
    }
    let last = k - 1;
    proof {
        assert(v@[last as int] == '-');
        assert forall|i: int| reserved_split_at(t, i) implies i == last - from by {
            if i < last - from {
                assert(t[last - from] == v@[last as int]);
                assert(is_lower_alnum(t[last - from]));
            }
            if i > last - from {
                assert(t[i] == v@[from + i]);
            }
        }
    }
    // the split can only be at the last hyphen; check its conditions
    if last < from + 1 || last + 1 >= n {
        proof {
            assert(!reserved_split_at(t, last - from));
        }
        return false;
    }
    if v[from] == '-' {
        proof {
            assert(t[0] == v@[from as int]);
            assert(!reserved_split_at(t, last - from));
        }
        return false;
    }
    if !all_lower_alnum(v, last + 1, n) {
        proof {
            let j0 = choose|j: int| last < j < n && !is_lower_alnum(#[trigger] v@[j]);
            assert(t[j0 - from] == v@[j0]);
            assert(!reserved_split_at(t, last - from));
        }
        return false;
    }
    // head characters and no adjacent hyphens
    let mut i: usize = from;
    while i < last
        invariant
            from <= i <= last,
            last < n == v@.len(),
            v@[last as int] == '-',
            forall|j: int|
                from <= j < i ==> (is_reserved_seg_char(#[trigger] v@[j]) || v@[j] == '-'),
            forall|j: int| from <= j < i ==> !(#[trigger] v@[j] == '-' && v@[j + 1] == '-'),
        decreases last - i,
    {
        let c = v[i];
        if !(('a' <= c && c <= 'z') || ('0' <= c && c <= '9') || c == '_' || c == '.' || c == '-') {
            proof {
                assert(t[i - from] == v@[i as int]);
                assert(!reserved_split_at(t, last - from));
            }
            return false;
        }
        if c == '-' && v[i + 1] == '-' {
            proof {
                assert(t[i - from] == v@[i as int]);
                assert(t[i - from + 1] == v@[i + 1]);
                assert(!reserved_split_at(t, last - from));
            }
            return false;
        }
        i = i + 1;
    }
    proof {
        assert forall|j: int| last - from < j < t.len() implies is_lower_alnum(#[trigger] t[j]) by {
            assert(t[j] == v@[from + j]);
        }
        assert forall|j: int| 0 <= j < last - from implies (is_reserved_seg_char(#[trigger] t[j])
            || t[j] == '-') by {
            assert(t[j] == v@[from + j]);
        }
        assert forall|j: int| 0 <= j < last - from implies !(#[trigger] t[j] == '-' && t[j + 1]
            == '-') by {
            assert(t[j] == v@[from + j]);
            assert(t[j + 1] == v@[from + j + 1]);
        }
        assert(reserved_split_at(t, last - from));
    }
    true
}

/// Whether `v` is an LSB reserved name.
fn reserved_accepts(v: &Vec<char>) -> (b: bool)
    ensures
        b == reserved_matches(v@),
{
    proof {
        assert(v@.skip(0) =~= v@);
    }
    if reserved_body_accepts(v, 0) {
        return true;
    }
    v.len() > 0 && v[0] == '_' && reserved_body_accepts(v, 1)
}

/// Whether a file named `file_name` is eligible to run under `opt`: the
/// conventional suffixes are dropped, the namespace rules apply under the
/// namespace option, and the custom expression, when given, must accept the
/// name.
pub fn filter_filename(opt: &Opt, file_name: &str) -> (b: bool)
    ensures
        b == filter_spec(opt.lsbsysinit, regex_of(*opt), file_name@),
{
    let v = chars_of(file_name);
    if has_std_ignored_suffix(&v) {
        return false;
    }
    if opt.lsbsysinit {
        if has_lsb_ignored_suffix(&v) {
            return false;
        }
        if !(lanana_accepts(&v) || reserved_accepts(&v) || cron_accepts(&v)) {
            return false;
        }
    }
    match &opt.regex {
        None => true,
        Some(p) => match regex_check(p.as_str(), file_name) {
            Some(b) => b,
            None => false,
        },
    }
}

} // verus!
