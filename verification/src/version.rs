//! Version grammars: the buildpack version `<int>.<int>.<int>[-pre]` and the
//! packaging API version `<int>.<int>`.

use vstd::prelude::*;
use vstd::string::StrSliceExecFns;
use crate::text::{find_char, is_digits, is_alnum, dec_value, str_chars, parse_u64};

verus! {

/// A pre-release tag: non-empty, alphanumeric characters, dots and hyphens.
pub open spec fn is_pre_release(s: Seq<char>) -> bool {
    s.len() > 0 && forall|i: int| 0 <= i < s.len() ==>
        is_alnum(#[trigger] s[i]) || s[i] == '.' || s[i] == '-'
}

/// Splits a version string at its first two dots and the first hyphen after
/// them: `major`, `minor`, `patch`, and the optional pre-release tag.
pub open spec fn version_decomp(s: Seq<char>) -> Option<(Seq<char>, Seq<char>, Seq<char>, Option<Seq<char>>)> {
    match find_char(s, '.', 0) {
        None => None,
        Some(i) => match find_char(s, '.', i + 1) {
            None => None,
            Some(j) => {
                let a = s.subrange(0, i);
                let b = s.subrange(i + 1, j);
                let rest = s.subrange(j + 1, s.len() as int);
                match find_char(rest, '-', 0) {
                    None => Some((a, b, rest, None)),
                    Some(k) => Some(
                        (a, b, rest.subrange(0, k), Some(rest.subrange(k + 1, rest.len() as int))),
                    ),
                }
            },
        },
    }
}

/// The version grammar `<int>.<int>.<int>[-pre]`.
pub open spec fn is_version_string(s: Seq<char>) -> bool {
    match version_decomp(s) {
        None => false,
        Some((a, b, c, p)) => {
            &&& is_digits(a)
            &&& is_digits(b)
            &&& is_digits(c)
            &&& match p {
                None => true,
                Some(q) => is_pre_release(q),
            }
        },
    }
}

/// Whether the three numbers of a valid version string fit in `u64`.
pub open spec fn version_fits(s: Seq<char>) -> bool {
    match version_decomp(s) {
        None => false,
        Some((a, b, c, _)) => dec_value(a) <= u64::MAX && dec_value(b) <= u64::MAX && dec_value(c)
            <= u64::MAX,
    }
}

/// A parsed buildpack version.
#[derive(Debug)]
pub struct Version {
    pub major: u64,
    pub minor: u64,
    pub patch: u64,
    pub pre: Option<String>,
}

/// Whether `v` is the version that the string `s` denotes.
pub open spec fn version_models(v: Version, s: Seq<char>) -> bool {
    match version_decomp(s) {
        None => false,
        Some((a, b, c, p)) => {
            &&& v.major == dec_value(a)
            &&& v.minor == dec_value(b)
            &&& v.patch == dec_value(c)
            &&& match (v.pre, p) {
                (None, None) => true,
                (Some(vp), Some(q)) => vp@ == q,
                _ => false,
            }
        },
    }
}

impl Version {
    /// The fixed default `0.1.0`, used when no version parameter is given.
    pub fn default_version() -> (r: Version)
        ensures
            r.major == 0 && r.minor == 1 && r.patch == 0 && r.pre is None,
    {
        Version { major: 0, minor: 1, patch: 0, pre: None }
    }

    /// Parses `<int>.<int>.<int>[-pre]`, failing on any string outside the
    /// grammar or whose numbers do not fit in `u64`.
    pub fn parse(s: &str) -> (r: Option<Version>)
        ensures
            match r {
                Some(v) => is_version_string(s@) && version_fits(s@) && version_models(v, s@),
                None => !(is_version_string(s@) && version_fits(s@)),
            },
    {
        let cs = str_chars(s);
        let n: usize = cs.len();
        let i = match crate::text::find_in(&cs, '.', 0) {
            Some(i) => i,
            None => {
                return None;
            },
        };
        let j = match crate::text::find_in(&cs, '.', i + 1) {
            Some(j) => j,
            None => {
                return None;
            },
        };
        // Find the first hyphen after the second dot; on the tail of the
        // string this is the same search shifted by `j + 1`.
        let k = crate::text::find_in(&cs, '-', j + 1);
        proof {
            lemma_find_shift(s@, '-', j + 1);
        }
        let patch_end: usize = match k {
            Some(k) => k,
            None => n,
        };
        if !check_digits(&cs, 0, i) || !check_digits(&cs, i + 1, j) || !check_digits(
            &cs,
            j + 1,
            patch_end,
        ) {
            proof {
                lemma_subrange_of_rest(s@, j + 1, patch_end as int);
            }
            return None;
        }
        let major = match parse_u64(&cs, 0, i) {
            Some(v) => v,
            None => {
                return None;
            },
        };
        let minor = match parse_u64(&cs, i + 1, j) {
            Some(v) => v,
            None => {
                return None;
            },
        };
        let patch = match parse_u64(&cs, j + 1, patch_end) {
            Some(v) => v,
            None => {
                proof {
                    lemma_subrange_of_rest(s@, j + 1, patch_end as int);
                }
                return None;
            },
        };
        proof {
            lemma_subrange_of_rest(s@, j + 1, patch_end as int);
        }
        let pre: Option<String> = match k {
            None => None,
            Some(k) => {
                if !check_pre(&cs, k + 1, n) {
                    proof {
                        lemma_subrange_of_rest(s@, j + 1, k + 1);
                    }
                    return None;
                }
                proof {
                    lemma_subrange_of_rest(s@, j + 1, k + 1);
                }
                Some(s.substring_char(k + 1, n).to_owned())
            },
        };
        Some(Version { major, minor, patch, pre })
    }
}

/// Subranges of the tail of `s` from `start` on are the same subranges of
/// `s`, shifted by `start`.
proof fn lemma_subrange_of_rest(s: Seq<char>, start: int, end: int)
    requires
        0 <= start <= end <= s.len(),
    ensures
        s.subrange(start, s.len() as int).subrange(0, end - start) == s.subrange(start, end),
        s.subrange(start, s.len() as int).subrange(end - start, s.len() - start) == s.subrange(
            end,
            s.len() as int,
        ),
{
    assert(s.subrange(start, s.len() as int).subrange(0, end - start) =~= s.subrange(start, end));
    assert(s.subrange(start, s.len() as int).subrange(end - start, s.len() - start) =~= s.subrange(
        end,
        s.len() as int,
    ));
}

/// Searching the tail of `s` from `from` on is the shifted search in `s`.
proof fn lemma_find_shift(s: Seq<char>, c: char, from: int)
    requires
        0 <= from <= s.len(),
    ensures
        match find_char(s, c, from) {
            None => find_char(s.subrange(from, s.len() as int), c, 0) is None,
            Some(i) => find_char(s.subrange(from, s.len() as int), c, 0) == Some(i - from),
        },
    decreases s.len() - from,
{
    let rest = s.subrange(from, s.len() as int);
    if from == s.len() {
    } else if s[from] == c {
        assert(rest[0] == c);
    } else {
        lemma_find_shift(s, c, from + 1);
        let rest2 = s.subrange(from + 1, s.len() as int);
        assert(rest2 =~= rest.subrange(1, rest.len() as int));
        lemma_find_tail(rest, c);
    }
}

/// Unfolds one step of `find_char` at the head of a sequence.
proof fn lemma_find_tail(s: Seq<char>, c: char)
    requires
        s.len() > 0,
        s[0] != c,
    ensures
        match find_char(s.subrange(1, s.len() as int), c, 0) {
            None => find_char(s, c, 0) is None,
            Some(i) => find_char(s, c, 0) == Some(i + 1),
        },
    decreases s.len(),
{
    lemma_find_from(s, c, 1);
}

/// `find_char(s, c, i)` on the suffix equals the shifted search on the tail.
proof fn lemma_find_from(s: Seq<char>, c: char, from: int)
    requires
        1 <= from <= s.len(),
    ensures
        match find_char(s.subrange(1, s.len() as int), c, from - 1) {
            None => find_char(s, c, from) is None,
            Some(i) => find_char(s, c, from) == Some(i + 1),
        },
    decreases s.len() - from,
{
    let t = s.subrange(1, s.len() as int);
    if from == s.len() {
    } else if s[from] == c {
        assert(t[from - 1] == c);
    } else {
        assert(t[from - 1] != c);
        lemma_find_from(s, c, from + 1);
    }
}

/// Checks that `s[from..to]` is a non-empty run of digits.
fn check_digits(s: &Vec<char>, from: usize, to: usize) -> (r: bool)
    requires
        from <= to <= s@.len(),
    ensures
        r == is_digits(s@.subrange(from as int, to as int)),
{
    if from == to {
        return false;
    }
    let mut i: usize = from;
    while i < to
        invariant
            from <= i <= to <= s@.len(),
            forall|k: int| from <= k < i ==> crate::text::is_digit(#[trigger] s@[k]),
        decreases to - i,
    {
        let c = s[i];
        if !('0' <= c && c <= '9') {
            proof {
                assert(s@.subrange(from as int, to as int)[i - from] == s@[i as int]);
            }
            return false;
        }
        i = i + 1;
    }
    true
}

/// Checks that `s[from..to]` is a valid pre-release tag.
fn check_pre(s: &Vec<char>, from: usize, to: usize) -> (r: bool)
    requires
        from <= to <= s@.len(),
    ensures
        r == is_pre_release(s@.subrange(from as int, to as int)),
{
    if from == to {
        return false;
    }
    let mut i: usize = from;
    while i < to
        invariant
            from <= i <= to <= s@.len(),
            forall|k: int| from <= k < i ==> is_alnum(#[trigger] s@[k]) || s@[k] == '.' || s@[k]
                == '-',
        decreases to - i,
    {
        let c = s[i];
        if !(('a' <= c && c <= 'z') || ('A' <= c && c <= 'Z') || ('0' <= c && c <= '9') || c == '.'
            || c == '-') {
            proof {
                assert(s@.subrange(from as int, to as int)[i - from] == s@[i as int]);
            }
            return false;
        }
        i = i + 1;
    }
    true
}

/// A parsed packaging API version of the form `<int>.<int>`.
#[derive(Debug)]
pub struct ApiVersion {
    pub major: u64,
    pub minor: u64,
}

/// The API version grammar `<int>.<int>`.
pub open spec fn is_api_string(s: Seq<char>) -> bool {
    match find_char(s, '.', 0) {
        None => false,
        Some(i) => is_digits(s.subrange(0, i)) && is_digits(s.subrange(i + 1, s.len() as int)),
    }
}

/// Whether the two numbers of a valid API string fit in `u64`.
pub open spec fn api_fits(s: Seq<char>) -> bool {
    match find_char(s, '.', 0) {
        None => false,
        Some(i) => dec_value(s.subrange(0, i)) <= u64::MAX && dec_value(
            s.subrange(i + 1, s.len() as int),
        ) <= u64::MAX,
    }
}

/// Whether `a` is the API version that the string `s` denotes.
pub open spec fn api_models(a: ApiVersion, s: Seq<char>) -> bool {
    match find_char(s, '.', 0) {
        None => false,
        Some(i) => a.major == dec_value(s.subrange(0, i)) && a.minor == dec_value(
            s.subrange(i + 1, s.len() as int),
        ),
    }
}

impl ApiVersion {
    /// The fixed default `0.4`, used when no api parameter is given.
    pub fn default_api() -> (r: ApiVersion)
        ensures
            r.major == 0 && r.minor == 4,
    {
        ApiVersion { major: 0, minor: 4 }
    }

    /// Parses `<int>.<int>`, failing on any string outside the grammar or
    /// whose numbers do not fit in `u64`.
    pub fn parse(s: &str) -> (r: Option<ApiVersion>)
        ensures
            match r {
                Some(a) => is_api_string(s@) && api_fits(s@) && api_models(a, s@),
                None => !(is_api_string(s@) && api_fits(s@)),
            },
    {
        let cs = str_chars(s);
        let n: usize = cs.len();
        let i = match crate::text::find_in(&cs, '.', 0) {
            Some(i) => i,
            None => {
                return None;
            },
        };
        if !check_digits(&cs, 0, i) || !check_digits(&cs, i + 1, n) {
            return None;
        }
        let major = match parse_u64(&cs, 0, i) {
            Some(v) => v,
            None => {
                return None;
            },
        };
        let minor = match parse_u64(&cs, i + 1, n) {
            Some(v) => v,
            None => {
                return None;
            },
        };
        Some(ApiVersion { major, minor })
    }
}

} // verus!
